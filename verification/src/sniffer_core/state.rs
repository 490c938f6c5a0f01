//! The sniffer's tracker: the account and character of each game client,
//! updated packet by packet.

use vstd::prelude::*;
use crate::endpoint::{endpoint_text, Endpoint};
use crate::sniffer_protocol::packet as wire;
use crate::sniffer_protocol::packet::{L2Packet, PacketView, StatusUpdateAttribute, StatusUpdateView, UserInfoView};
use crate::service::state::{
    find_link, first_index, keys_distinct, lemma_drop_link, lemma_first_index, lemma_first_index_at, lemma_first_index_map,
    lemma_push_distinct, lemma_set_link, lemma_update_distinct, link_of, links_distinct, drop_link, is_client,
    same_text, set_link,
};
use crate::sniffer_core::event::{SnifferEvent, SnifferEventView};
use crate::sniffer_core::model::{
    duplicate_all, text_opt, views, AccountSession, AccountView, CharSelectSlot, CharSelectSlotView,
    Character, CharacterView, Duplicate, InventoryItemView, Location, Stats, Vitals,
};

verus! {

/// The roster slot of a decoded slot.
pub open spec fn slot_view_of(s: wire::CharSelectSlotView) -> CharSelectSlotView {
    CharSelectSlotView {
        name: s.name,
        title: s.title,
        char_id: s.char_id,
        level: s.level,
        class_id: s.class_id,
        cur_hp_bits: s.cur_hp_bits,
        max_hp_bits: s.max_hp_bits,
        cur_mp_bits: s.cur_mp_bits,
        max_mp_bits: s.max_mp_bits,
        sp: s.sp,
        exp: s.exp,
        exp_fraction_bits: s.exp_fraction_bits,
        reputation: s.reputation,
        pk_kills: s.pk_kills,
        pvp_kills: s.pvp_kills,
        vitality: s.vitality,
        last_access: s.last_access,
    }
}

/// The roster of decoded slots.
pub open spec fn roster_of(v: Seq<wire::CharSelectSlotView>) -> Seq<CharSelectSlotView> {
    v.map_values(|s: wire::CharSelectSlotView| slot_view_of(s))
}

/// Converts decoded roster slots.
fn convert_slots(v: Vec<wire::CharSelectSlot>) -> (r: Vec<CharSelectSlot>)
    ensures
        views(r@) == roster_of(views(v@)),
{
    let mut r: Vec<CharSelectSlot> = Vec::new();
    let mut i: usize = 0;
    while i < v.len()
        invariant
            i <= v@.len(),
            views(r@) =~= roster_of(views(v@)).take(i as int),
        decreases v@.len() - i,
    {
        let s = &v[i];
        let c = CharSelectSlot {
            name: s.name.clone(),
            title: s.title.clone(),
            char_id: s.char_id,
            level: s.level,
            class_id: s.class_id,
            cur_hp_bits: s.cur_hp_bits,
            max_hp_bits: s.max_hp_bits,
            cur_mp_bits: s.cur_mp_bits,
            max_mp_bits: s.max_mp_bits,
            sp: s.sp,
            exp: s.exp,
            exp_fraction_bits: s.exp_fraction_bits,
            reputation: s.reputation,
            pk_kills: s.pk_kills,
            pvp_kills: s.pvp_kills,
            vitality: s.vitality,
            last_access: s.last_access,
        };
        let ghost before = views(r@);
        r.push(c);
        assert(views(r@) =~= before.push(c@));
        assert(roster_of(views(v@)).take(i + 1) =~= roster_of(views(v@)).take(i as int).push(slot_view_of(v@[i as int]@)));
        i = i + 1;
    }
    assert(roster_of(views(v@)).take(i as int) =~= roster_of(views(v@)));
    r
}

/// Everything the sniffer's tracker knows.
pub struct CharacterTracker {
    characters: Vec<Character>,
    client_to_object: Vec<(Endpoint, u32)>,
    client_to_account: Vec<(Endpoint, String)>,
    accounts: Vec<AccountSession>,
    active_player_id: Option<u32>,
}

/// Abstract value of a [`CharacterTracker`]: characters, client-to-character
/// and client-to-account associations and accounts, each in the order first
/// seen, and the character seen last.
pub struct SnifferView {
    pub characters: Seq<CharacterView>,
    pub client_objects: Seq<(Endpoint, u32)>,
    pub client_accounts: Seq<(Endpoint, Seq<char>)>,
    pub accounts: Seq<AccountView>,
    pub active: Option<u32>,
}

impl View for CharacterTracker {
    type V = SnifferView;

    closed spec fn view(&self) -> SnifferView {
        SnifferView {
            characters: views(self.characters@),
            client_objects: self.client_to_object@,
            client_accounts: self.client_to_account@.map_values(|p: (Endpoint, String)| (p.0, p.1@)),
            accounts: views(self.accounts@),
            active: self.active_player_id,
        }
    }
}

/// Whether a character is the one with `id`.
pub open spec fn is_character(id: u32) -> spec_fn(CharacterView) -> bool {
    |c: CharacterView| c.object_id == id
}

/// Whether an account is named `name`.
pub open spec fn is_account(name: Seq<char>) -> spec_fn(AccountView) -> bool {
    |a: AccountView| a.account_name == name
}

/// Key of a character.
pub open spec fn character_key() -> spec_fn(CharacterView) -> u32 {
    |c: CharacterView| c.object_id
}

/// Key of an account.
pub open spec fn account_key() -> spec_fn(AccountView) -> Seq<char> {
    |a: AccountView| a.account_name
}

/// Position of the character with `id`.
pub open spec fn character_at(t: SnifferView, id: u32) -> Option<int> {
    first_index(t.characters, is_character(id), 0)
}

/// Position of the account named `name`.
pub open spec fn account_at(t: SnifferView, name: Seq<char>) -> Option<int> {
    first_index(t.accounts, is_account(name), 0)
}

/// One character per object, one association per client, one account per
/// name.
pub open spec fn sniffer_wf(t: SnifferView) -> bool {
    &&& keys_distinct(t.characters, character_key())
    &&& links_distinct(t.client_objects)
    &&& links_distinct(t.client_accounts)
    &&& keys_distinct(t.accounts, account_key())
}

/// The tracker with nothing seen.
pub open spec fn empty_sniffer() -> SnifferView {
    SnifferView { characters: seq![], client_objects: seq![], client_accounts: seq![], accounts: seq![], active: None }
}

/// The character a client plays, if it has one that is tracked.
pub open spec fn character_of_client(t: SnifferView, a: Endpoint) -> Option<CharacterView> {
    match link_of(t.client_objects, a) {
        Some(o) => match character_at(t, o) {
            Some(i) => Some(t.characters[i]),
            None => None,
        },
        None => None,
    }
}

/// A login names an account: nothing for an empty name; otherwise the
/// client, if known, is associated with it and the account records the
/// client's endpoint and the time (created if new); the login is announced.
pub open spec fn sniffer_login_step(t: SnifferView, client: Option<Endpoint>, name: Seq<char>, now: u64) -> (SnifferView, Seq<SnifferEventView>) {
    if name.len() == 0 {
        (t, seq![])
    } else {
        let ev = seq![SnifferEventView::AccountDetected { client_addr: client, account_name: name }];
        match client {
            Some(a) => {
                let accs = match account_at(t, name) {
                    Some(i) => t.accounts.update(i, AccountView {
                        client_addr: endpoint_text(a),
                        last_seen_epoch_ms: now,
                        ..t.accounts[i]
                    }),
                    None => t.accounts.push(AccountView {
                        account_name: name,
                        client_addr: endpoint_text(a),
                        character_roster: seq![],
                        active_character: None,
                        last_seen_epoch_ms: now,
                    }),
                };
                (SnifferView { client_accounts: set_link(t.client_accounts, a, name), accounts: accs, ..t }, ev)
            },
            None => (t, ev),
        }
    }
}

/// A roster arrives: its account is the packet's name, else the client's
/// association, else empty; with a known client and a name the roster is
/// stored on the account (created if new); the roster is announced.
pub open spec fn sniffer_roster_step(
    t: SnifferView,
    client: Option<Endpoint>,
    info_name: Seq<char>,
    slots: Seq<CharSelectSlotView>,
    now: u64,
) -> (SnifferView, Seq<SnifferEventView>) {
    let name = if info_name.len() > 0 {
        info_name
    } else {
        match client {
            Some(a) => match link_of(t.client_accounts, a) {
                Some(n) => n,
                None => Seq::<char>::empty(),
            },
            None => Seq::<char>::empty(),
        }
    };
    let ev = seq![SnifferEventView::AccountRosterLoaded { client_addr: client, account_name: name, characters: slots }];
    match client {
        Some(a) => if name.len() > 0 {
            let accs = match account_at(t, name) {
                Some(i) => t.accounts.update(i, AccountView {
                    character_roster: slots,
                    last_seen_epoch_ms: now,
                    ..t.accounts[i]
                }),
                None => t.accounts.push(AccountView {
                    account_name: name,
                    client_addr: endpoint_text(a),
                    character_roster: slots,
                    active_character: None,
                    last_seen_epoch_ms: now,
                }),
            };
            (SnifferView { accounts: accs, ..t }, ev)
        } else {
            (t, ev)
        },
        None => (t, ev),
    }
}

/// The blank character of a first sighting.
pub open spec fn blank_character(object_id: u32) -> CharacterView {
    CharacterView {
        object_id,
        account_name: None,
        name: seq![],
        title: seq![],
        class_id: 0,
        level: 0,
        exp: 0,
        sp: 0,
        karma: 0,
        pk_kills: 0,
        pvp_kills: 0,
        location: Location { x: 0, y: 0, z: 0, heading: 0 },
        vitals: Vitals { cur_hp: 0, max_hp: 0, cur_mp: 0, max_mp: 0, cur_cp: 0, max_cp: 0 },
        stats: Stats { p_atk: 0, p_def: 0, m_atk: 0, m_def: 0, p_atk_spd: 0, m_atk_spd: 0, run_spd: 0, walk_spd: 0 },
        skills: seq![],
        buffs: seq![],
        inventory: seq![],
        warehouse: seq![],
        client_addr: None,
        last_updated_epoch_ms: 0,
    }
}

/// A character overwritten from its announcement.
pub open spec fn announced(c: CharacterView, u: UserInfoView, account: Option<Seq<char>>, text: Option<Seq<char>>, now: u64) -> CharacterView {
    CharacterView {
        object_id: u.object_id,
        account_name: account,
        name: u.name,
        class_id: u.class_id,
        level: u.level,
        exp: u.exp,
        sp: u.sp,
        client_addr: text,
        location: Location { x: u.x, y: u.y, z: u.z, heading: u.heading },
        vitals: Vitals {
            cur_hp: u.cur_hp,
            max_hp: u.max_hp,
            cur_mp: u.cur_mp,
            max_mp: u.max_mp,
            cur_cp: u.cur_cp,
            max_cp: u.max_cp,
        },
        stats: Stats {
            p_atk: u.p_atk,
            p_def: u.p_def,
            m_atk: u.m_atk,
            m_def: u.m_def,
            p_atk_spd: u.p_atk_spd,
            m_atk_spd: u.m_atk_spd,
            run_spd: 0,
            walk_spd: 0,
        },
        last_updated_epoch_ms: now,
        ..c
    }
}

/// A character announces itself: it becomes the client's character, is
/// created or overwritten (with the client's account, if any), becomes the
/// last seen, and is announced.
pub open spec fn sniffer_user_info_step(t: SnifferView, client: Option<Endpoint>, u: UserInfoView, now: u64) -> (SnifferView, Seq<SnifferEventView>) {
    let co = match client {
        Some(a) => set_link(t.client_objects, a, u.object_id),
        None => t.client_objects,
    };
    let account = match client {
        Some(a) => link_of(t.client_accounts, a),
        None => None,
    };
    let text = match client {
        Some(a) => Some(endpoint_text(a)),
        None => None,
    };
    let base = match character_at(t, u.object_id) {
        Some(i) => t.characters[i],
        None => blank_character(u.object_id),
    };
    let c = announced(base, u, account, text, now);
    let chars = match character_at(t, u.object_id) {
        Some(i) => t.characters.update(i, c),
        None => t.characters.push(c),
    };
    (
        SnifferView { characters: chars, client_objects: co, active: Some(u.object_id), ..t },
        seq![SnifferEventView::CharacterLoaded { client_addr: client, character: c }],
    )
}

/// A character with one status attribute applied: 1 level, 2 experience,
/// 3 physical attack, 9 to 12 hit and mana points, 13 skill points, 33 and
/// 34 combat points; others change nothing.
pub open spec fn apply_attr(c: CharacterView, a: StatusUpdateAttribute) -> CharacterView {
    let v = a.value;
    if a.attr_id == 1 {
        CharacterView { level: v, ..c }
    } else if a.attr_id == 2 {
        CharacterView { exp: v as u64, ..c }
    } else if a.attr_id == 3 {
        CharacterView { stats: Stats { p_atk: v, ..c.stats }, ..c }
    } else if a.attr_id == 9 {
        CharacterView { vitals: Vitals { cur_hp: v, ..c.vitals }, ..c }
    } else if a.attr_id == 10 {
        CharacterView { vitals: Vitals { max_hp: v, ..c.vitals }, ..c }
    } else if a.attr_id == 11 {
        CharacterView { vitals: Vitals { cur_mp: v, ..c.vitals }, ..c }
    } else if a.attr_id == 12 {
        CharacterView { vitals: Vitals { max_mp: v, ..c.vitals }, ..c }
    } else if a.attr_id == 13 {
        CharacterView { sp: v, ..c }
    } else if a.attr_id == 33 {
        CharacterView { vitals: Vitals { cur_cp: v, ..c.vitals }, ..c }
    } else if a.attr_id == 34 {
        CharacterView { vitals: Vitals { max_cp: v, ..c.vitals }, ..c }
    } else {
        c
    }
}

/// A character with status attributes applied in order.
pub open spec fn apply_attrs(c: CharacterView, attrs: Seq<StatusUpdateAttribute>) -> CharacterView
    decreases attrs.len(),
{
    if attrs.len() == 0 {
        c
    } else {
        apply_attr(apply_attrs(c, attrs.drop_last()), attrs.last())
    }
}

/// Status attributes never change which character it is.
pub proof fn lemma_attrs_keep_identity(c: CharacterView, attrs: Seq<StatusUpdateAttribute>)
    ensures
        apply_attrs(c, attrs).object_id == c.object_id,
    decreases attrs.len(),
{
    if attrs.len() > 0 {
        lemma_attrs_keep_identity(c, attrs.drop_last());
    }
}

/// What a packet does to the sniffer's tracker and what it announces:
/// logins, rosters and character announcements as above; status updates
/// and movements of tracked characters are applied and announced; raw
/// packets are announced; the rest changes nothing.
pub open spec fn sniffer_packet_step(t: SnifferView, client: Option<Endpoint>, p: PacketView, now: u64) -> (SnifferView, Seq<SnifferEventView>) {
    match p {
        PacketView::AuthLogin(a) => sniffer_login_step(t, client, a.account_name, now),
        PacketView::CharSelectInfo(i) => sniffer_roster_step(t, client, i.account_name, roster_of(i.character_slots), now),
        PacketView::UserInfo(u) => sniffer_user_info_step(t, client, u, now),
        PacketView::StatusUpdate(s) => match character_at(t, s.object_id) {
            Some(i) => {
                let c = CharacterView { last_updated_epoch_ms: now, ..apply_attrs(t.characters[i], s.attributes) };
                (
                    SnifferView { characters: t.characters.update(i, c), ..t },
                    seq![SnifferEventView::VitalsChanged { client_addr: client, object_id: s.object_id, vitals: c.vitals }],
                )
            },
            None => (t, seq![]),
        },
        PacketView::MoveToLocation(mv) => match character_at(t, mv.object_id) {
            Some(i) => {
                let old_c = t.characters[i];
                let loc = Location { x: mv.target_x, y: mv.target_y, z: mv.target_z, ..old_c.location };
                (
                    SnifferView {
                        characters: t.characters.update(i, CharacterView { location: loc, last_updated_epoch_ms: now, ..old_c }),
                        ..t
                    },
                    seq![SnifferEventView::LocationChanged { client_addr: client, object_id: mv.object_id, location: loc }],
                )
            },
            None => (t, seq![]),
        },
        PacketView::Raw { opcode, payload } => (
            t,
            seq![SnifferEventView::RawPacketReceived { client_addr: client, opcode, length: payload.len() as usize }],
        ),
        _ => (t, seq![]),
    }
}

/// A blank character.
fn blank(object_id: u32) -> (c: Character)
    ensures
        c@ == blank_character(object_id),
{
    let c = Character {
        object_id,
        account_name: None,
        name: String::new(),
        title: String::new(),
        class_id: 0,
        level: 0,
        exp: 0,
        sp: 0,
        karma: 0,
        pk_kills: 0,
        pvp_kills: 0,
        location: Location { x: 0, y: 0, z: 0, heading: 0 },
        vitals: Vitals { cur_hp: 0, max_hp: 0, cur_mp: 0, max_mp: 0, cur_cp: 0, max_cp: 0 },
        stats: Stats { p_atk: 0, p_def: 0, m_atk: 0, m_def: 0, p_atk_spd: 0, m_atk_spd: 0, run_spd: 0, walk_spd: 0 },
        skills: Vec::new(),
        buffs: Vec::new(),
        inventory: Vec::new(),
        warehouse: Vec::new(),
        client_addr: None,
        last_updated_epoch_ms: 0,
    };
    assert(c@.name =~= Seq::<char>::empty());
    assert(c@.title =~= Seq::<char>::empty());
    assert(c@.inventory =~= Seq::<InventoryItemView>::empty());
    assert(c@.warehouse =~= Seq::<InventoryItemView>::empty());
    c
}

/// Applies status attributes in order and stamps the time.
fn apply_status(c: &mut Character, attrs: &Vec<StatusUpdateAttribute>, now: u64)
    ensures
        final(c)@ == (CharacterView { last_updated_epoch_ms: now, ..apply_attrs(old(c)@, attrs@) }),
{
    let mut i: usize = 0;
    while i < attrs.len()
        invariant
            i <= attrs@.len(),
            c@ == apply_attrs(old(c)@, attrs@.take(i as int)),
        decreases attrs@.len() - i,
    {
        let a = attrs[i];
        let v = a.value;
        if a.attr_id == 1 {
            c.level = v;
        } else if a.attr_id == 2 {
            c.exp = v as u64;
        } else if a.attr_id == 3 {
            c.stats.p_atk = v;
        } else if a.attr_id == 9 {
            c.vitals.cur_hp = v;
        } else if a.attr_id == 10 {
            c.vitals.max_hp = v;
        } else if a.attr_id == 11 {
            c.vitals.cur_mp = v;
        } else if a.attr_id == 12 {
            c.vitals.max_mp = v;
        } else if a.attr_id == 13 {
            c.sp = v;
        } else if a.attr_id == 33 {
            c.vitals.cur_cp = v;
        } else if a.attr_id == 34 {
            c.vitals.max_cp = v;
        }
        assert(attrs@.take(i + 1).drop_last() =~= attrs@.take(i as int));
        assert(attrs@.take(i + 1).last() == a);
        i = i + 1;
    }
    assert(attrs@.take(i as int) =~= attrs@);
    c.last_updated_epoch_ms = now;
}


/// Views of client-to-text associations.
pub open spec fn text_links(s: Seq<(Endpoint, String)>) -> Seq<(Endpoint, Seq<char>)> {
    s.map_values(|p: (Endpoint, String)| (p.0, p.1@))
}

/// Whether a stored character is the one with `id`.
pub open spec fn stored_character(id: u32) -> spec_fn(Character) -> bool {
    |c: Character| c.object_id == id
}

/// Whether a stored account is named `name`.
pub open spec fn stored_account(name: Seq<char>) -> spec_fn(AccountSession) -> bool {
    |a: AccountSession| a.account_name@ == name
}

impl CharacterTracker {
    /// Whether the tracker's invariant holds.
    pub open spec fn wf(&self) -> bool {
        sniffer_wf(self@)
    }

    /// A tracker that has seen nothing.
    pub fn new() -> (t: Self)
        ensures
            t@ == empty_sniffer(),
            t.wf(),
    {
        let t = CharacterTracker {
            characters: Vec::new(),
            client_to_object: Vec::new(),
            client_to_account: Vec::new(),
            accounts: Vec::new(),
            active_player_id: None,
        };
        assert(t@.characters =~= Seq::<CharacterView>::empty());
        assert(t@.client_accounts =~= Seq::<(Endpoint, Seq<char>)>::empty());
        assert(t@.accounts =~= Seq::<AccountView>::empty());
        t
    }

    /// Position of the character with `id`.
    fn find_character(&self, id: u32) -> (r: Option<usize>)
        ensures
            match r {
                Some(i) => character_at(self@, id) == Some(i as int) && i < self.characters@.len(),
                None => character_at(self@, id) is None,
            },
    {
        let mut i: usize = 0;
        while i < self.characters.len()
            invariant
                i <= self.characters@.len(),
                first_index(self.characters@, stored_character(id), 0)
                    == first_index(self.characters@, stored_character(id), i as int),
            decreases self.characters@.len() - i,
        {
            if self.characters[i].object_id == id {
                proof { lemma_first_index_map(self.characters@, |c: Character| c@, is_character(id), stored_character(id), 0); }
                return Some(i);
            }
            i = i + 1;
        }
        proof { lemma_first_index_map(self.characters@, |c: Character| c@, is_character(id), stored_character(id), 0); }
        None
    }

    /// Position of the account named `name`.
    fn find_account(&self, name: &str) -> (r: Option<usize>)
        ensures
            match r {
                Some(i) => account_at(self@, name@) == Some(i as int) && i < self.accounts@.len(),
                None => account_at(self@, name@) is None,
            },
    {
        let mut i: usize = 0;
        while i < self.accounts.len()
            invariant
                i <= self.accounts@.len(),
                first_index(self.accounts@, stored_account(name@), 0)
                    == first_index(self.accounts@, stored_account(name@), i as int),
            decreases self.accounts@.len() - i,
        {
            if same_text(self.accounts[i].account_name.as_str(), name) {
                proof { lemma_first_index_map(self.accounts@, |a: AccountSession| a@, is_account(name@), stored_account(name@), 0); }
                return Some(i);
            }
            i = i + 1;
        }
        proof { lemma_first_index_map(self.accounts@, |a: AccountSession| a@, is_account(name@), stored_account(name@), 0); }
        None
    }

    /// The character object a client plays, if recorded.
    fn object_of_client(&self, a: Endpoint) -> (r: Option<u32>)
        ensures
            r == link_of(self@.client_objects, a),
    {
        proof { lemma_first_index(self@.client_objects, is_client::<u32>(a), 0); }
        match find_link(&self.client_to_object, a) {
            Some(i) => Some(self.client_to_object[i].1),
            None => None,
        }
    }

    /// The account a client is logged in as, if recorded.
    fn account_of_client(&self, a: Endpoint) -> (r: Option<String>)
        ensures
            text_opt(r) == link_of(self@.client_accounts, a),
    {
        proof {
            lemma_first_index_map(self.client_to_account@, |p: (Endpoint, String)| (p.0, p.1@), is_client::<Seq<char>>(a), is_client::<String>(a), 0);
            lemma_first_index(self.client_to_account@, is_client::<String>(a), 0);
        }
        match find_link(&self.client_to_account, a) {
            Some(i) => Some(self.client_to_account[i].1.clone()),
            None => None,
        }
    }

    /// Associates a client with an account name.
    fn link_account(&mut self, a: Endpoint, name: &String)
        requires
            old(self).wf(),
        ensures
            final(self)@ == (SnifferView { client_accounts: set_link(old(self)@.client_accounts, a, name@), ..old(self)@ }),
            final(self).wf(),
    {
        let ghost before = self.client_to_account@;
        proof {
            lemma_set_link(self@.client_accounts, a, name@);
            lemma_first_index_map(self.client_to_account@, |p: (Endpoint, String)| (p.0, p.1@), is_client::<Seq<char>>(a), is_client::<String>(a), 0);
        }
        match find_link(&self.client_to_account, a) {
            Some(i) => {
                self.client_to_account.set(i, (a, name.clone()));
                assert(text_links(self.client_to_account@) =~= text_links(before).update(i as int, (a, name@)));
            },
            None => {
                self.client_to_account.push((a, name.clone()));
                assert(text_links(self.client_to_account@) =~= text_links(before).push((a, name@)));
            },
        }
    }

    /// Associates a client with a character object.
    fn link_object(&mut self, a: Endpoint, id: u32)
        requires
            old(self).wf(),
        ensures
            final(self)@ == (SnifferView { client_objects: set_link(old(self)@.client_objects, a, id), ..old(self)@ }),
            final(self).wf(),
    {
        proof { lemma_set_link(self@.client_objects, a, id); }
        match find_link(&self.client_to_object, a) {
            Some(i) => { self.client_to_object.set(i, (a, id)); },
            None => { self.client_to_object.push((a, id)); },
        }
    }

    /// Stores an account: updates the named one with `update`, or appends
    /// `fresh` when there is none.
    fn upsert_account(&mut self, name: &String, fresh: AccountSession, roster: Option<Vec<CharSelectSlot>>, addr: Option<String>, now: u64)
        requires
            old(self).wf(),
            fresh@.account_name == name@,
        ensures
            final(self).wf(),
            final(self)@ == (SnifferView {
                accounts: match account_at(old(self)@, name@) {
                    Some(i) => old(self)@.accounts.update(i, AccountView {
                        character_roster: match roster {
                            Some(r) => views(r@),
                            None => old(self)@.accounts[i].character_roster,
                        },
                        client_addr: match addr {
                            Some(t) => t@,
                            None => old(self)@.accounts[i].client_addr,
                        },
                        last_seen_epoch_ms: now,
                        ..old(self)@.accounts[i]
                    }),
                    None => old(self)@.accounts.push(fresh@),
                },
                ..old(self)@
            }),
    {
        let ghost accs = views(self.accounts@);
        proof { lemma_first_index(accs, is_account(name@), 0); }
        match self.find_account(name.as_str()) {
            Some(j) => {
                let mut acc = self.accounts.remove(j);
                match roster {
                    Some(r) => { acc.character_roster = r; },
                    None => {},
                }
                match addr {
                    Some(t) => { acc.client_addr = t; },
                    None => {},
                }
                acc.last_seen_epoch_ms = now;
                self.accounts.insert(j, acc);
                proof {
                    assert(views(self.accounts@) =~= accs.update(j as int, acc@));
                    lemma_update_distinct(accs, account_key(), j as int, acc@);
                }
            },
            None => {
                let ghost fv = fresh@;
                self.accounts.push(fresh);
                proof {
                    assert(views(self.accounts@) =~= accs.push(fv));
                    lemma_push_distinct(accs, account_key(), fv);
                }
            },
        }
    }

    /// Updates the tracker from a packet of a client (or of no known
    /// client) received at `now`, and returns what changed, in order.
    pub fn handle_packet_with_client(&mut self, client_addr: Option<Endpoint>, packet: L2Packet, now: u64) -> (events: Vec<SnifferEvent>)
        requires
            old(self).wf(),
        ensures
            final(self).wf(),
            final(self)@ == sniffer_packet_step(old(self)@, client_addr, packet@, now).0,
            views(events@) == sniffer_packet_step(old(self)@, client_addr, packet@, now).1,
    {
        let ghost t = self@;
        let ghost step = sniffer_packet_step(t, client_addr, packet@, now);
        let mut events: Vec<SnifferEvent> = Vec::new();
        match packet {
            L2Packet::AuthLogin(auth) => {
                let name = auth.account_name;
                if name.as_str().unicode_len() == 0 {
                    assert(views(events@) =~= step.1);
                    return events;
                }
                if let Some(a) = client_addr {
                    self.link_account(a, &name);
                    let fresh = AccountSession {
                        account_name: name.clone(),
                        client_addr: a.to_text(),
                        character_roster: Vec::new(),
                        active_character: None,
                        last_seen_epoch_ms: now,
                    };
                    assert(fresh@.character_roster =~= Seq::<CharSelectSlotView>::empty());
                    self.upsert_account(&name, fresh, None, Some(a.to_text()), now);
                }
                events.push(SnifferEvent::AccountDetected { client_addr, account_name: name });
            },
            L2Packet::CharSelectInfo(info) => {
                let named = info.account_name.as_str().unicode_len() > 0;
                let name: String = if named {
                    info.account_name.clone()
                } else {
                    match client_addr {
                        Some(a) => match self.account_of_client(a) {
                            Some(n) => n,
                            None => String::new(),
                        },
                        None => String::new(),
                    }
                };
                let slots = convert_slots(info.character_slots);
                if let Some(a) = client_addr {
                    if name.as_str().unicode_len() > 0 {
                        let fresh = AccountSession {
                            account_name: name.clone(),
                            client_addr: a.to_text(),
                            character_roster: duplicate_all(&slots),
                            active_character: None,
                            last_seen_epoch_ms: now,
                        };
                        self.upsert_account(&name, fresh, Some(duplicate_all(&slots)), None, now);
                    }
                }
                events.push(SnifferEvent::AccountRosterLoaded { client_addr, account_name: name, characters: slots });
            },
            L2Packet::UserInfo(info) => {
                let mut account: Option<String> = None;
                if let Some(a) = client_addr {
                    self.link_object(a, info.object_id);
                    account = self.account_of_client(a);
                }
                let text: Option<String> = match client_addr {
                    Some(a) => Some(a.to_text()),
                    None => None,
                };
                let ghost chars = views(self.characters@);
                let k: usize = match self.find_character(info.object_id) {
                    Some(i) => i,
                    None => {
                        self.characters.push(blank(info.object_id));
                        assert(views(self.characters@) =~= chars.push(blank_character(info.object_id)));
                        self.characters.len() - 1
                    },
                };
                let mut c = self.characters.remove(k);
                c.object_id = info.object_id;
                c.account_name = account;
                c.name = info.name.clone();
                c.class_id = info.class_id;
                c.level = info.level;
                c.exp = info.exp;
                c.sp = info.sp;
                c.client_addr = text;
                c.location = Location { x: info.x, y: info.y, z: info.z, heading: info.heading };
                c.vitals = Vitals {
                    cur_hp: info.cur_hp,
                    max_hp: info.max_hp,
                    cur_mp: info.cur_mp,
                    max_mp: info.max_mp,
                    cur_cp: info.cur_cp,
                    max_cp: info.max_cp,
                };
                c.stats = Stats {
                    p_atk: info.p_atk,
                    p_def: info.p_def,
                    m_atk: info.m_atk,
                    m_def: info.m_def,
                    p_atk_spd: info.p_atk_spd,
                    m_atk_spd: info.m_atk_spd,
                    run_spd: 0,
                    walk_spd: 0,
                };
                c.last_updated_epoch_ms = now;
                let character = c.duplicate();
                self.characters.insert(k, c);
                proof {
                    lemma_first_index(chars, is_character(info.object_id), 0);
                    match character_at(t, info.object_id) {
                        Some(i) => {
                            assert(views(self.characters@) =~= chars.update(i, c@));
                            lemma_update_distinct(chars, character_key(), i, c@);
                        },
                        None => {
                            assert(views(self.characters@) =~= chars.push(c@));
                            lemma_push_distinct(chars, character_key(), c@);
                        },
                    }
                }
                self.active_player_id = Some(info.object_id);
                events.push(SnifferEvent::CharacterLoaded { client_addr, character });
            },
            L2Packet::StatusUpdate(update) => {
                if let Some(i) = self.find_character(update.object_id) {
                    apply_status(&mut self.characters[i], &update.attributes, now);
                    proof {
                        lemma_attrs_keep_identity(t.characters[i as int], update@.attributes);
                        lemma_first_index(t.characters, is_character(update.object_id), 0);
                        assert(views(self.characters@) =~= t.characters.update(i as int, self.characters@[i as int]@));
                        lemma_update_distinct(t.characters, character_key(), i as int, self.characters@[i as int]@);
                    }
                    events.push(SnifferEvent::VitalsChanged {
                        client_addr,
                        object_id: update.object_id,
                        vitals: self.characters[i].vitals,
                    });
                }
            },
            L2Packet::MoveToLocation(mv) => {
                if let Some(i) = self.find_character(mv.object_id) {
                    let mut c = self.characters.remove(i);
                    c.location.x = mv.target_x;
                    c.location.y = mv.target_y;
                    c.location.z = mv.target_z;
                    c.last_updated_epoch_ms = now;
                    let location = c.location;
                    self.characters.insert(i, c);
                    proof {
                        lemma_first_index(t.characters, is_character(mv.object_id), 0);
                        assert(views(self.characters@) =~= t.characters.update(i as int, c@));
                        lemma_update_distinct(t.characters, character_key(), i as int, c@);
                    }
                    events.push(SnifferEvent::LocationChanged { client_addr, object_id: mv.object_id, location });
                }
            },
            L2Packet::Raw { opcode, payload } => {
                events.push(SnifferEvent::RawPacketReceived { client_addr, opcode, length: payload.len() });
            },
            _ => {},
        }
        assert(views(events@) =~= step.1);
        assert(self@ == step.0);
        events
    }

    /// Updates the tracker from a packet of no known client.
    pub fn handle_packet(&mut self, packet: L2Packet, now: u64) -> (events: Vec<SnifferEvent>)
        requires
            old(self).wf(),
        ensures
            final(self).wf(),
            final(self)@ == sniffer_packet_step(old(self)@, None, packet@, now).0,
            views(events@) == sniffer_packet_step(old(self)@, None, packet@, now).1,
    {
        self.handle_packet_with_client(None, packet, now)
    }

    /// Every tracked character, in the order first seen.
    pub fn get_characters(&self) -> (r: Vec<Character>)
        ensures
            views(r@) == self@.characters,
    {
        duplicate_all(&self.characters)
    }

    /// Every account seen, in the order first seen.
    pub fn get_accounts(&self) -> (r: Vec<AccountSession>)
        ensures
            views(r@) == self@.accounts,
    {
        duplicate_all(&self.accounts)
    }

    /// The character a client plays.
    pub fn get_character_by_client(&self, client_addr: Endpoint) -> (r: Option<Character>)
        ensures
            match character_of_client(self@, client_addr) {
                Some(c) => r is Some && r->0@ == c,
                None => r is None,
            },
    {
        match self.object_of_client(client_addr) {
            Some(o) => match self.find_character(o) {
                Some(i) => Some(self.characters[i].duplicate()),
                None => None,
            },
            None => None,
        }
    }

    /// Announces a client connection.
    pub fn register_client_connection(&self, client_addr: Endpoint, server_addr: Endpoint) -> (events: Vec<SnifferEvent>)
        ensures
            views(events@) == seq![SnifferEventView::ClientConnected { client_addr, server_addr }],
    {
        let mut events: Vec<SnifferEvent> = Vec::new();
        events.push(SnifferEvent::ClientConnected { client_addr, server_addr });
        assert(views(events@) =~= seq![SnifferEventView::ClientConnected { client_addr, server_addr }]);
        events
    }

    /// Forgets a disconnected client's associations and announces it.
    pub fn unregister_client_connection(&mut self, client_addr: Endpoint, reason: String) -> (events: Vec<SnifferEvent>)
        requires
            old(self).wf(),
        ensures
            final(self).wf(),
            final(self)@ == (SnifferView {
                client_objects: drop_link(old(self)@.client_objects, client_addr),
                client_accounts: drop_link(old(self)@.client_accounts, client_addr),
                ..old(self)@
            }),
            views(events@) == seq![SnifferEventView::ClientDisconnected { client_addr, reason: reason@ }],
    {
        proof {
            lemma_drop_link(self@.client_objects, client_addr);
            lemma_drop_link(self@.client_accounts, client_addr);
            lemma_first_index_map(self.client_to_account@, |p: (Endpoint, String)| (p.0, p.1@), is_client::<Seq<char>>(client_addr), is_client::<String>(client_addr), 0);
        }
        if let Some(i) = find_link(&self.client_to_object, client_addr) {
            self.client_to_object.remove(i);
        }
        let ghost before = self.client_to_account@;
        if let Some(i) = find_link(&self.client_to_account, client_addr) {
            self.client_to_account.remove(i);
            assert(text_links(self.client_to_account@) =~= text_links(before).remove(i as int));
        }
        let ghost rv = reason@;
        let mut events: Vec<SnifferEvent> = Vec::new();
        events.push(SnifferEvent::ClientDisconnected { client_addr, reason });
        assert(views(events@) =~= seq![SnifferEventView::ClientDisconnected { client_addr, reason: rv }]);
        events
    }
}

} // verus!

verus! {

impl Default for CharacterTracker {
    /// Same as [`CharacterTracker::new`].
    fn default() -> (t: Self)
        ensures
            t@ == empty_sniffer(),
            t.wf(),
    {
        Self::new()
    }
}

// ---------------------------------------------------------------- laws

/// A login keeps the tracker's invariant and, with a client and a
/// non-empty name, associates the client with that account.
pub proof fn lemma_sniffer_login(t: SnifferView, a: Endpoint, name: Seq<char>, now: u64)
    requires
        sniffer_wf(t),
        name.len() > 0,
    ensures
        sniffer_wf(sniffer_login_step(t, Some(a), name, now).0),
        link_of(sniffer_login_step(t, Some(a), name, now).0.client_accounts, a) == Some(name),
        sniffer_login_step(t, Some(a), name, now).0.client_objects == t.client_objects,
{
    lemma_set_link(t.client_accounts, a, name);
    lemma_first_index(t.accounts, is_account(name), 0);
    match account_at(t, name) {
        Some(i) => {
            lemma_update_distinct(t.accounts, account_key(), i, AccountView {
                client_addr: endpoint_text(a),
                last_seen_epoch_ms: now,
                ..t.accounts[i]
            });
        },
        None => {
            lemma_push_distinct(t.accounts, account_key(), AccountView {
                account_name: name,
                client_addr: endpoint_text(a),
                character_roster: seq![],
                active_character: None,
                last_seen_epoch_ms: now,
            });
        },
    }
}

/// A roster keeps the tracker's invariant and every association.
pub proof fn lemma_sniffer_roster(t: SnifferView, client: Option<Endpoint>, info_name: Seq<char>, slots: Seq<CharSelectSlotView>, now: u64)
    requires
        sniffer_wf(t),
    ensures
        sniffer_wf(sniffer_roster_step(t, client, info_name, slots, now).0),
        sniffer_roster_step(t, client, info_name, slots, now).0.client_accounts == t.client_accounts,
        sniffer_roster_step(t, client, info_name, slots, now).0.client_objects == t.client_objects,
        sniffer_roster_step(t, client, info_name, slots, now).0.characters == t.characters,
{
    let name = if info_name.len() > 0 {
        info_name
    } else {
        match client {
            Some(a) => match link_of(t.client_accounts, a) {
                Some(n) => n,
                None => Seq::<char>::empty(),
            },
            None => Seq::<char>::empty(),
        }
    };
    lemma_first_index(t.accounts, is_account(name), 0);
    if client is Some && name.len() > 0 {
        match account_at(t, name) {
            Some(i) => {
                lemma_update_distinct(t.accounts, account_key(), i, AccountView {
                    character_roster: slots,
                    last_seen_epoch_ms: now,
                    ..t.accounts[i]
                });
            },
            None => {
                lemma_push_distinct(t.accounts, account_key(), AccountView {
                    account_name: name,
                    client_addr: endpoint_text(client->0),
                    character_roster: slots,
                    active_character: None,
                    last_seen_epoch_ms: now,
                });
            },
        }
    }
}

/// A character announcement from a client makes the announced character
/// the client's, named as announced, under the client's account.
pub proof fn lemma_sniffer_user_info_binds_client(t: SnifferView, a: Endpoint, u: UserInfoView, now: u64)
    requires
        sniffer_wf(t),
    ensures
        ({
            let after = sniffer_user_info_step(t, Some(a), u, now).0;
            &&& character_of_client(after, a) is Some
            &&& character_of_client(after, a)->0.object_id == u.object_id
            &&& character_of_client(after, a)->0.name == u.name
            &&& character_of_client(after, a)->0.account_name == link_of(t.client_accounts, a)
            &&& after.active == Some(u.object_id)
        }),
{
    let after = sniffer_user_info_step(t, Some(a), u, now).0;
    lemma_set_link(t.client_objects, a, u.object_id);
    lemma_first_index(t.characters, is_character(u.object_id), 0);
    let s = t.characters;
    match character_at(t, u.object_id) {
        Some(i) => {
            lemma_first_index(after.characters, is_character(u.object_id), 0);
            assert forall|j: int| 0 <= j < s.len() implies is_character(u.object_id)(after.characters[j]) == is_character(u.object_id)(s[j]) by {}
            lemma_first_index_at(after.characters, is_character(u.object_id), i);
        },
        None => {
            assert forall|j: int| 0 <= j < s.len() implies !is_character(u.object_id)(after.characters[j]) by {
                assert(after.characters[j] == s[j]);
            }
            lemma_first_index_at(after.characters, is_character(u.object_id), s.len() as int);
        },
    }
}

/// A status attribute writes exactly the field its id names, and nothing
/// else: 1 the level, 2 the experience, 3 the physical attack, 9 and 10
/// current and maximum hit points, 11 and 12 current and maximum mana, 13
/// the skill points, 33 and 34 current and maximum combat points; any other
/// id changes nothing.
pub proof fn lemma_sniffer_status_attribute_writes_its_field(c: CharacterView, a: StatusUpdateAttribute)
    ensures
        ({
            let r = apply_attr(c, a);
            let v = a.value;
            let id = a.attr_id;
            &&& r.level == (if id == 1 { v } else { c.level })
            &&& r.exp == (if id == 2 { v as u64 } else { c.exp })
            &&& r.stats.p_atk == (if id == 3 { v } else { c.stats.p_atk })
            &&& r.vitals.cur_hp == (if id == 9 { v } else { c.vitals.cur_hp })
            &&& r.vitals.max_hp == (if id == 10 { v } else { c.vitals.max_hp })
            &&& r.vitals.cur_mp == (if id == 11 { v } else { c.vitals.cur_mp })
            &&& r.vitals.max_mp == (if id == 12 { v } else { c.vitals.max_mp })
            &&& r.sp == (if id == 13 { v } else { c.sp })
            &&& r.vitals.cur_cp == (if id == 33 { v } else { c.vitals.cur_cp })
            &&& r.vitals.max_cp == (if id == 34 { v } else { c.vitals.max_cp })
            &&& r.stats == (Stats { p_atk: r.stats.p_atk, ..c.stats })
            &&& r == (CharacterView { level: r.level, exp: r.exp, sp: r.sp, vitals: r.vitals, stats: r.stats, ..c })
        }),
{
}

/// Replacing a character by one with the same object keeps every search by
/// object where it was.
proof fn lemma_sniffer_character_at_update(t: SnifferView, i: int, c: CharacterView, id: u32)
    requires
        0 <= i < t.characters.len(),
        c.object_id == t.characters[i].object_id,
    ensures
        first_index(t.characters.update(i, c), is_character(id), 0) == first_index(t.characters, is_character(id), 0),
{
    let s = t.characters;
    let u = s.update(i, c);
    lemma_first_index(s, is_character(id), 0);
    lemma_first_index(u, is_character(id), 0);
    assert forall|j: int| 0 <= j < s.len() implies is_character(id)(u[j]) == is_character(id)(s[j]) by {}
    match first_index(s, is_character(id), 0) {
        Some(k) => { lemma_first_index_at(u, is_character(id), k); },
        None => {
            assert forall|j: int| 0 <= j < u.len() implies !is_character(id)(u[j]) by {}
            lemma_first_index(u, is_character(id), 0);
        },
    }
}

/// A status update with one attribute about a tracked character writes the
/// attribute's field of that character (with id 10 the maximum hit points,
/// every other vital kept), and announces the character's resulting vitals.
pub proof fn lemma_sniffer_status_update_writes_vitals(
    t: SnifferView,
    client: Option<Endpoint>,
    object_id: u32,
    a: StatusUpdateAttribute,
    now: u64,
)
    requires
        sniffer_wf(t),
        character_at(t, object_id) is Some,
    ensures
        ({
            let i = character_at(t, object_id)->0;
            let p = PacketView::StatusUpdate(StatusUpdateView { object_id, attributes: seq![a] });
            let r = sniffer_packet_step(t, client, p, now);
            let before = t.characters[i];
            let after = r.0.characters[i];
            let v = a.value;
            let id = a.attr_id;
            &&& character_at(r.0, object_id) == Some(i)
            &&& after.object_id == object_id
            &&& after.level == (if id == 1 { v } else { before.level })
            &&& after.vitals.cur_hp == (if id == 9 { v } else { before.vitals.cur_hp })
            &&& after.vitals.max_hp == (if id == 10 { v } else { before.vitals.max_hp })
            &&& after.vitals.cur_mp == (if id == 11 { v } else { before.vitals.cur_mp })
            &&& after.vitals.max_mp == (if id == 12 { v } else { before.vitals.max_mp })
            &&& after.vitals.cur_cp == (if id == 33 { v } else { before.vitals.cur_cp })
            &&& after.vitals.max_cp == (if id == 34 { v } else { before.vitals.max_cp })
            &&& after.last_updated_epoch_ms == now
            &&& r.1 == seq![SnifferEventView::VitalsChanged { client_addr: client, object_id, vitals: after.vitals }]
        }),
{
    let i = character_at(t, object_id)->0;
    let c = t.characters[i];
    lemma_first_index(t.characters, is_character(object_id), 0);
    assert(seq![a].drop_last() =~= Seq::<StatusUpdateAttribute>::empty());
    assert(seq![a].last() == a);
    assert(apply_attrs(c, Seq::<StatusUpdateAttribute>::empty()) == c);
    assert(apply_attrs(c, seq![a]) == apply_attr(c, a));
    lemma_sniffer_status_attribute_writes_its_field(c, a);
    lemma_attrs_keep_identity(c, seq![a]);
    let nc = CharacterView { last_updated_epoch_ms: now, ..apply_attrs(c, seq![a]) };
    lemma_sniffer_character_at_update(t, i, nc, object_id);
}

/// A character announcement records what it announces, field for field:
/// afterwards the announced object is tracked with the announced name,
/// level, experience, skill points and position, and current and maximum
/// hit, mana and combat points equal to the packet's; the announcement
/// event carries the same character.
pub proof fn lemma_sniffer_user_info_records_fields(t: SnifferView, client: Option<Endpoint>, u: UserInfoView, now: u64)
    requires
        sniffer_wf(t),
    ensures
        ({
            let r = sniffer_packet_step(t, client, PacketView::UserInfo(u), now);
            let k = character_at(r.0, u.object_id);
            &&& k is Some
            &&& r.1.len() == 1
            &&& r.1[0] == SnifferEventView::CharacterLoaded { client_addr: client, character: r.0.characters[k->0] }
            &&& ({
                let c = r.0.characters[k->0];
                &&& c.object_id == u.object_id
                &&& c.name == u.name
                &&& c.class_id == u.class_id
                &&& c.level == u.level
                &&& c.exp == u.exp
                &&& c.sp == u.sp
                &&& c.location.x == u.x && c.location.y == u.y && c.location.z == u.z
                &&& c.vitals.cur_hp == u.cur_hp
                &&& c.vitals.max_hp == u.max_hp
                &&& c.vitals.cur_mp == u.cur_mp
                &&& c.vitals.max_mp == u.max_mp
                &&& c.vitals.cur_cp == u.cur_cp
                &&& c.vitals.max_cp == u.max_cp
                &&& c.stats.p_atk == u.p_atk && c.stats.p_def == u.p_def
                &&& c.stats.m_atk == u.m_atk && c.stats.m_def == u.m_def
                &&& c.last_updated_epoch_ms == now
            })
        }),
{
    let after = sniffer_packet_step(t, client, PacketView::UserInfo(u), now).0;
    lemma_first_index(t.characters, is_character(u.object_id), 0);
    let s = t.characters;
    match character_at(t, u.object_id) {
        Some(i) => {
            lemma_sniffer_character_at_update(t, i, after.characters[i], u.object_id);
        },
        None => {
            assert forall|j: int| 0 <= j < s.len() implies !is_character(u.object_id)(after.characters[j]) by {
                assert(after.characters[j] == s[j]);
            }
            lemma_first_index_at(after.characters, is_character(u.object_id), s.len() as int);
        },
    }
}

/// A login, the account's roster and the client's character announcement,
/// in that order, leave the client playing the announced character under
/// the account that logged in.
pub proof fn lemma_sniffer_session(
    t: SnifferView,
    a: Endpoint,
    name: Seq<char>,
    roster_name: Seq<char>,
    slots: Seq<CharSelectSlotView>,
    u: UserInfoView,
    t1: u64,
    t2: u64,
    t3: u64,
)
    requires
        sniffer_wf(t),
        name.len() > 0,
    ensures
        ({
            let s1 = sniffer_login_step(t, Some(a), name, t1).0;
            let s2 = sniffer_roster_step(s1, Some(a), roster_name, slots, t2).0;
            let s3 = sniffer_user_info_step(s2, Some(a), u, t3).0;
            &&& character_of_client(s3, a) is Some
            &&& character_of_client(s3, a)->0.account_name == Some(name)
            &&& character_of_client(s3, a)->0.name == u.name
        }),
{
    let s1 = sniffer_login_step(t, Some(a), name, t1).0;
    lemma_sniffer_login(t, a, name, t1);
    let s2 = sniffer_roster_step(s1, Some(a), roster_name, slots, t2).0;
    lemma_sniffer_roster(s1, Some(a), roster_name, slots, t2);
    lemma_sniffer_user_info_binds_client(s2, a, u, t3);
}

/// A client that disconnects has no character and no account any more;
/// every other client keeps its associations.
pub proof fn lemma_sniffer_disconnect_forgets_client(t: SnifferView, a: Endpoint)
    requires
        sniffer_wf(t),
    ensures
        link_of(drop_link(t.client_objects, a), a) is None,
        link_of(drop_link(t.client_accounts, a), a) is None,
        forall|b: Endpoint| b != a ==> link_of(drop_link(t.client_objects, a), b) == link_of(t.client_objects, b),
        forall|b: Endpoint| b != a ==> link_of(drop_link(t.client_accounts, a), b) == link_of(t.client_accounts, b),
{
    lemma_drop_link(t.client_objects, a);
    lemma_drop_link(t.client_accounts, a);
}

} // verus!
