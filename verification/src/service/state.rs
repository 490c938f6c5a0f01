//! The tracker: what each game client is logged in as, the characters seen,
//! and the market listings, updated packet by packet.

use vstd::prelude::*;
use crate::endpoint::{endpoint_text, Endpoint};
use crate::text::{hash_number, hash_number_string};
use crate::companion_capture::device::{eq_ignore_ascii_case, equals_ignore_ascii_case};
use crate::sniffer_protocol::packet::{
    AuthLoginPacket, CharSelectInfoPacket, ItemListView, L2Packet, MoveToLocationPacket, PacketView, PrivateStorePacket,
    PrivateStoreView, StatusUpdateAttribute, StatusUpdateView, UserInfoPacket, UserInfoView, WarehouseListPacket, WarehouseListView,
};
use crate::service::event::{CompanionEvent, EventView};
use crate::service::model::{
    blank_character, copy_plain, copy_text_opt, duplicate_all, text_opt, views, AccountSession, AccountView,
    BuffEffect, CharSelectSlot, CharSelectSlotView, Character, CharacterView, CommissionItem, CommissionItemView,
    Duplicate, EinhasadProduct, InventoryItem, ItemInfoView, Location, MarketState, MarketView, PrivateStoreSession,
    SkillEntry, Stats, StoreView, Vitals, WorldExchangeItem, WorldExchangeItemView,
};

verus! {

// ---------------------------------------------------------------- search

/// The first position from `i` on whose element satisfies `p`.
pub open spec fn first_index<T>(s: Seq<T>, p: spec_fn(T) -> bool, i: int) -> Option<int>
    decreases s.len() - i,
{
    if i < 0 || i >= s.len() {
        None
    } else if p(s[i]) {
        Some(i)
    } else {
        first_index(s, p, i + 1)
    }
}

/// What a search finds: the first satisfying position, or that there is none.
pub proof fn lemma_first_index<T>(s: Seq<T>, p: spec_fn(T) -> bool, i: int)
    requires
        0 <= i,
    ensures
        match first_index(s, p, i) {
            Some(k) => i <= k < s.len() && p(s[k]) && forall|j: int| i <= j < k ==> !p(s[j]),
            None => forall|j: int| i <= j < s.len() ==> !p(s[j]),
        },
    decreases s.len() - i,
{
    if i < s.len() && !p(s[i]) {
        lemma_first_index(s, p, i + 1);
    }
}

/// A position that satisfies `p` with none before it is what a search finds.
pub proof fn lemma_first_index_at<T>(s: Seq<T>, p: spec_fn(T) -> bool, k: int)
    requires
        0 <= k < s.len(),
        p(s[k]),
        forall|j: int| 0 <= j < k ==> !p(s[j]),
    ensures
        first_index(s, p, 0) == Some(k),
{
    lemma_first_index(s, p, 0);
}

/// When no element satisfies `p`, a search finds nothing.
pub proof fn lemma_first_index_none<T>(s: Seq<T>, p: spec_fn(T) -> bool)
    requires
        forall|j: int| 0 <= j < s.len() ==> !p(s[j]),
    ensures
        first_index(s, p, 0) is None,
{
    lemma_first_index(s, p, 0);
}

// ---------------------------------------------------------------- links

/// An association of clients with values, one per client.
pub open spec fn links_distinct<V>(s: Seq<(Endpoint, V)>) -> bool {
    forall|i: int, j: int| 0 <= i < j < s.len() ==> s[i].0 != s[j].0
}

/// Whether an association entry is the client's.
pub open spec fn is_client<V>(a: Endpoint) -> spec_fn((Endpoint, V)) -> bool {
    |p: (Endpoint, V)| p.0 == a
}

/// What a client is associated with.
pub open spec fn link_of<V>(s: Seq<(Endpoint, V)>, a: Endpoint) -> Option<V> {
    match first_index(s, is_client::<V>(a), 0) {
        Some(i) => Some(s[i].1),
        None => None,
    }
}

/// Associates a client with a value, replacing what it had.
pub open spec fn set_link<V>(s: Seq<(Endpoint, V)>, a: Endpoint, v: V) -> Seq<(Endpoint, V)> {
    match first_index(s, is_client::<V>(a), 0) {
        Some(i) => s.update(i, (a, v)),
        None => s.push((a, v)),
    }
}

/// Forgets a client's association.
pub open spec fn drop_link<V>(s: Seq<(Endpoint, V)>, a: Endpoint) -> Seq<(Endpoint, V)> {
    match first_index(s, is_client::<V>(a), 0) {
        Some(i) => s.remove(i),
        None => s,
    }
}

/// Setting a link keeps clients distinct and makes the lookup give the value;
/// other clients keep theirs.
pub proof fn lemma_set_link<V>(s: Seq<(Endpoint, V)>, a: Endpoint, v: V)
    requires
        links_distinct(s),
    ensures
        links_distinct(set_link(s, a, v)),
        link_of(set_link(s, a, v), a) == Some(v),
        forall|b: Endpoint| b != a ==> link_of(set_link(s, a, v), b) == link_of(s, b),
{
    lemma_first_index(s, is_client::<V>(a), 0);
    let t = set_link(s, a, v);
    match first_index(s, is_client::<V>(a), 0) {
        Some(i) => {
            assert(t[i].0 == a);
            lemma_first_index_at(t, is_client::<V>(a), i);
        },
        None => {
            assert(t[s.len() as int].0 == a);
            assert forall|j: int| 0 <= j < s.len() as int implies !is_client::<V>(a)(t[j]) by {}
            lemma_first_index_at(t, is_client::<V>(a), s.len() as int);
        },
    }
    assert forall|b: Endpoint| b != a implies link_of(t, b) == link_of(s, b) by {
        lemma_first_index(s, is_client::<V>(b), 0);
        lemma_first_index(t, is_client::<V>(b), 0);
        match first_index(s, is_client::<V>(b), 0) {
            Some(k) => {
                assert(t[k] == s[k]);
                assert forall|j: int| 0 <= j < k implies !is_client::<V>(b)(t[j]) by {
                    if t[j] != s[j] {
                        assert(t[j].0 == a);
                    }
                }
                lemma_first_index_at(t, is_client::<V>(b), k);
            },
            None => {
                assert forall|j: int| 0 <= j < t.len() implies !is_client::<V>(b)(t[j]) by {
                    if j < s.len() && t[j] == s[j] {
                    } else {
                        assert(t[j].0 == a);
                    }
                }
                lemma_first_index_none(t, is_client::<V>(b));
            },
        }
    }
}

/// Dropping a link keeps clients distinct, removes the client's, and keeps
/// the others.
pub proof fn lemma_drop_link<V>(s: Seq<(Endpoint, V)>, a: Endpoint)
    requires
        links_distinct(s),
    ensures
        links_distinct(drop_link(s, a)),
        link_of(drop_link(s, a), a) is None,
        forall|b: Endpoint| b != a ==> link_of(drop_link(s, a), b) == link_of(s, b),
{
    lemma_first_index(s, is_client::<V>(a), 0);
    let t = drop_link(s, a);
    match first_index(s, is_client::<V>(a), 0) {
        Some(i) => {
            assert forall|x: int, y: int| 0 <= x < y < t.len() implies t[x].0 != t[y].0 by {
                let x2 = if x < i { x } else { x + 1 };
                let y2 = if y < i { y } else { y + 1 };
                assert(t[x] == s[x2] && t[y] == s[y2]);
            }
            assert forall|j: int| 0 <= j < t.len() implies !is_client::<V>(a)(t[j]) by {
                let j2 = if j < i { j } else { j + 1 };
                assert(t[j] == s[j2]);
            }
            lemma_first_index_none(t, is_client::<V>(a));
            assert forall|b: Endpoint| b != a implies link_of(t, b) == link_of(s, b) by {
                lemma_first_index(s, is_client::<V>(b), 0);
                match first_index(s, is_client::<V>(b), 0) {
                    Some(k) => {
                        let k2 = if k < i { k } else { k - 1 };
                        assert(k != i);
                        assert(t[k2] == s[k]);
                        assert forall|j: int| 0 <= j < k2 implies !is_client::<V>(b)(t[j]) by {
                            let j2 = if j < i { j } else { j + 1 };
                            assert(t[j] == s[j2]);
                        }
                        lemma_first_index_at(t, is_client::<V>(b), k2);
                    },
                    None => {
                        assert forall|j: int| 0 <= j < t.len() implies !is_client::<V>(b)(t[j]) by {
                            let j2 = if j < i { j } else { j + 1 };
                            assert(t[j] == s[j2]);
                        }
                        lemma_first_index_none(t, is_client::<V>(b));
                    },
                }
            }
        },
        None => {},
    }
}

/// Position of a client's association.
pub fn find_link<V>(v: &Vec<(Endpoint, V)>, a: Endpoint) -> (r: Option<usize>)
    ensures
        match r {
            Some(i) => first_index(v@, is_client::<V>(a), 0) == Some(i as int) && i < v@.len(),
            None => first_index(v@, is_client::<V>(a), 0) is None,
        },
{
    let mut i: usize = 0;
    while i < v.len()
        invariant
            i <= v@.len(),
            first_index(v@, is_client::<V>(a), 0) == first_index(v@, is_client::<V>(a), i as int),
        decreases v@.len() - i,
    {
        if v[i].0 == a {
            return Some(i);
        }
        i = i + 1;
    }
    None
}

/// A search over a mapped sequence is the search with the mapping applied.
pub proof fn lemma_first_index_map<A, B>(s: Seq<A>, f: spec_fn(A) -> B, p: spec_fn(B) -> bool, q: spec_fn(A) -> bool, i: int)
    requires
        forall|x: A| #[trigger] q(x) == p(f(x)),
    ensures
        first_index(s.map_values(f), p, i) == first_index(s, q, i),
    decreases s.len() - i,
{
    if 0 <= i < s.len() {
        assert(s.map_values(f)[i] == f(s[i]));
        lemma_first_index_map(s, f, p, q, i + 1);
    }
}


/// Whether two texts are equal.
pub fn same_text(a: &str, b: &str) -> (r: bool)
    ensures
        r == (a@ == b@),
{
    let n = a.unicode_len();
    if n != b.unicode_len() {
        return false;
    }
    let mut i: usize = 0;
    while i < n
        invariant
            n == a@.len(),
            n == b@.len(),
            i <= n,
            forall|j: int| 0 <= j < i ==> a@[j] == b@[j],
        decreases n - i,
    {
        if a.get_char(i) != b.get_char(i) {
            return false;
        }
        i = i + 1;
    }
    assert(a@ =~= b@);
    true
}

// ---------------------------------------------------------------- tracker

/// Everything the tracker knows, as kept in memory.
pub struct CharacterTracker {
    characters: Vec<Character>,
    client_to_object: Vec<(Endpoint, u32)>,
    client_to_account: Vec<(Endpoint, String)>,
    accounts: Vec<AccountSession>,
    private_stores: Vec<PrivateStoreSession>,
    commission_items: Vec<CommissionItem>,
    world_exchange_items: Vec<WorldExchangeItem>,
    einhasad_products: Vec<EinhasadProduct>,
    active_player_id: Option<u32>,
}

/// Abstract value of a [`CharacterTracker`]: characters, client-to-character
/// and client-to-account associations, accounts and stores, each in the
/// order first seen, the latest market listings, and the character seen
/// last.
pub struct TrackerView {
    pub characters: Seq<CharacterView>,
    pub client_objects: Seq<(Endpoint, u32)>,
    pub client_accounts: Seq<(Endpoint, Seq<char>)>,
    pub accounts: Seq<AccountView>,
    pub stores: Seq<StoreView>,
    pub commission: Seq<CommissionItemView>,
    pub exchange: Seq<WorldExchangeItemView>,
    pub einhasad: Seq<EinhasadProduct>,
    pub active: Option<u32>,
}

/// Views of client-to-text associations.
pub open spec fn text_links(s: Seq<(Endpoint, String)>) -> Seq<(Endpoint, Seq<char>)> {
    s.map_values(|p: (Endpoint, String)| (p.0, p.1@))
}

impl View for CharacterTracker {
    type V = TrackerView;

    closed spec fn view(&self) -> TrackerView {
        TrackerView {
            characters: views(self.characters@),
            client_objects: self.client_to_object@,
            client_accounts: text_links(self.client_to_account@),
            accounts: views(self.accounts@),
            stores: views(self.private_stores@),
            commission: views(self.commission_items@),
            exchange: views(self.world_exchange_items@),
            einhasad: self.einhasad_products@,
            active: self.active_player_id,
        }
    }
}

/// Whether a character is the one with `id`.
pub open spec fn is_character(id: u32) -> spec_fn(CharacterView) -> bool {
    |c: CharacterView| c.object_id == id
}

/// Whether an account is named `name`.
pub open spec fn is_account(name: Seq<char>) -> spec_fn(AccountView) -> bool {
    |a: AccountView| a.account_name == name
}

/// Whether a store is the seller's.
pub open spec fn is_store(id: u32) -> spec_fn(StoreView) -> bool {
    |s: StoreView| s.seller_object_id == id
}

/// Whether a stored character is the one with `id`.
pub open spec fn stored_character(id: u32) -> spec_fn(Character) -> bool {
    |c: Character| c.object_id == id
}

/// Whether a stored account is named `name`.
pub open spec fn stored_account(name: Seq<char>) -> spec_fn(AccountSession) -> bool {
    |a: AccountSession| a.account_name@ == name
}

/// Whether a stored store is the seller's.
pub open spec fn stored_store(id: u32) -> spec_fn(PrivateStoreSession) -> bool {
    |s: PrivateStoreSession| s.seller_object_id == id
}

/// Position of the character with `id`.
pub open spec fn character_at(t: TrackerView, id: u32) -> Option<int> {
    first_index(t.characters, is_character(id), 0)
}

/// Position of the account named `name`.
pub open spec fn account_at(t: TrackerView, name: Seq<char>) -> Option<int> {
    first_index(t.accounts, is_account(name), 0)
}

/// Position of the seller's store.
pub open spec fn store_at(t: TrackerView, id: u32) -> Option<int> {
    first_index(t.stores, is_store(id), 0)
}

/// No two elements share a key.
pub open spec fn keys_distinct<T, K>(s: Seq<T>, key: spec_fn(T) -> K) -> bool {
    forall|i: int, j: int| 0 <= i < j < s.len() ==> key(s[i]) != key(s[j])
}

/// Key of a character.
pub open spec fn character_key() -> spec_fn(CharacterView) -> u32 {
    |c: CharacterView| c.object_id
}

/// Key of an account.
pub open spec fn account_key() -> spec_fn(AccountView) -> Seq<char> {
    |a: AccountView| a.account_name
}

/// Key of a store.
pub open spec fn store_key() -> spec_fn(StoreView) -> u32 {
    |s: StoreView| s.seller_object_id
}

/// Appending an element with a new key keeps keys distinct.
pub proof fn lemma_push_distinct<T, K>(s: Seq<T>, key: spec_fn(T) -> K, x: T)
    requires
        keys_distinct(s, key),
        forall|j: int| 0 <= j < s.len() ==> key(s[j]) != key(x),
    ensures
        keys_distinct(s.push(x), key),
{
    assert forall|i: int, j: int| 0 <= i < j < s.push(x).len() implies key(s.push(x)[i]) != key(s.push(x)[j]) by {
        if j == s.len() {
            assert(s.push(x)[i] == s[i]);
        } else {
            assert(s.push(x)[i] == s[i] && s.push(x)[j] == s[j]);
        }
    }
}

/// Replacing an element by one with the same key keeps keys distinct.
pub proof fn lemma_update_distinct<T, K>(s: Seq<T>, key: spec_fn(T) -> K, k: int, x: T)
    requires
        keys_distinct(s, key),
        0 <= k < s.len(),
        key(x) == key(s[k]),
    ensures
        keys_distinct(s.update(k, x), key),
{
    assert forall|i: int, j: int| 0 <= i < j < s.update(k, x).len() implies key(s.update(k, x)[i]) != key(s.update(k, x)[j]) by {
        assert(key(s.update(k, x)[i]) == key(s[i]));
        assert(key(s.update(k, x)[j]) == key(s[j]));
    }
}

/// One character per object, one association per client, one account per
/// name, one store per seller.
pub open spec fn tracker_wf(t: TrackerView) -> bool {
    &&& keys_distinct(t.characters, character_key())
    &&& links_distinct(t.client_objects)
    &&& links_distinct(t.client_accounts)
    &&& keys_distinct(t.accounts, account_key())
    &&& keys_distinct(t.stores, store_key())
}

/// The tracker with nothing seen.
pub open spec fn empty_tracker() -> TrackerView {
    TrackerView {
        characters: seq![],
        client_objects: seq![],
        client_accounts: seq![],
        accounts: seq![],
        stores: seq![],
        commission: seq![],
        exchange: seq![],
        einhasad: seq![],
        active: None,
    }
}

/// The character a client is playing: the client's own when it has one,
/// else the character seen last.
pub open spec fn resolve_object(t: TrackerView, client: Option<Endpoint>) -> Option<u32> {
    match client {
        Some(a) => match link_of(t.client_objects, a) {
            Some(o) => Some(o),
            None => t.active,
        },
        None => t.active,
    }
}

/// The character with `id`, if tracked.
pub open spec fn character_of(t: TrackerView, id: u32) -> Option<CharacterView> {
    match character_at(t, id) {
        Some(i) => Some(t.characters[i]),
        None => None,
    }
}

/// The character a client plays, if it has one that is tracked.
pub open spec fn character_of_client(t: TrackerView, a: Endpoint) -> Option<CharacterView> {
    match link_of(t.client_objects, a) {
        Some(o) => character_of(t, o),
        None => None,
    }
}

// ---------------------------------------------------------------- steps

/// A client connected: announced, nothing else changes.
pub open spec fn connect_step(t: TrackerView, client: Endpoint, server: Endpoint) -> (TrackerView, Seq<EventView>) {
    (t, seq![EventView::ClientConnected { client_addr: client, server_addr: server }])
}

/// A client went away: its character and account associations are
/// forgotten, and that is announced with the reason.
pub open spec fn disconnect_step(t: TrackerView, client: Endpoint, reason: Seq<char>) -> (TrackerView, Seq<EventView>) {
    (
        TrackerView {
            client_objects: drop_link(t.client_objects, client),
            client_accounts: drop_link(t.client_accounts, client),
            ..t
        },
        seq![EventView::ClientDisconnected { client_addr: client, reason }],
    )
}

/// A login names an account: nothing for an empty name or a client already
/// associated with that account; otherwise the client is associated with
/// it, the account records the client's endpoint and the time (created if
/// new), and a new account, or a login seen without a client, is announced.
pub open spec fn auth_login_step(t: TrackerView, client: Option<Endpoint>, name: Seq<char>, now: u64) -> (TrackerView, Seq<EventView>) {
    if name.len() == 0 {
        (t, seq![])
    } else {
        match client {
            Some(a) => if link_of(t.client_accounts, a) == Some(name) {
                (t, seq![])
            } else {
                let ca = set_link(t.client_accounts, a, name);
                match account_at(t, name) {
                    Some(i) => (
                        TrackerView {
                            client_accounts: ca,
                            accounts: t.accounts.update(i, AccountView {
                                client_addr: endpoint_text(a),
                                last_seen_epoch_ms: now,
                                ..t.accounts[i]
                            }),
                            ..t
                        },
                        seq![],
                    ),
                    None => (
                        TrackerView {
                            client_accounts: ca,
                            accounts: t.accounts.push(AccountView {
                                account_name: name,
                                client_addr: endpoint_text(a),
                                character_roster: seq![],
                                active_character: None,
                                last_seen_epoch_ms: now,
                            }),
                            ..t
                        },
                        seq![EventView::AccountDetected { client_addr: client, account_name: name }],
                    ),
                }
            },
            None => (t, seq![EventView::AccountDetected { client_addr: None, account_name: name }]),
        }
    }
}

/// The account name used when a roster arrives for an unknown account.
pub open spec fn fallback_account() -> Seq<char> {
    "GameAccount"@
}

/// A character roster arrives: ignored when empty; otherwise it is stored on
/// its account (named by the packet, else by the client's association,
/// else the fallback name; created if new), a named account becomes the
/// client's, and the roster is announced.
pub open spec fn char_select_step(
    t: TrackerView,
    client: Option<Endpoint>,
    info_name: Seq<char>,
    slots: Seq<CharSelectSlotView>,
    now: u64,
) -> (TrackerView, Seq<EventView>) {
    if slots.len() == 0 {
        (t, seq![])
    } else {
        let name = if info_name.len() > 0 {
            info_name
        } else {
            match client {
                Some(a) => match link_of(t.client_accounts, a) {
                    Some(n) => n,
                    None => fallback_account(),
                },
                None => fallback_account(),
            }
        };
        let ca = match client {
            Some(a) => if info_name.len() > 0 { set_link(t.client_accounts, a, info_name) } else { t.client_accounts },
            None => t.client_accounts,
        };
        let text = match client {
            Some(a) => endpoint_text(a),
            None => Seq::<char>::empty(),
        };
        let accs = match account_at(t, name) {
            Some(i) => t.accounts.update(i, AccountView {
                character_roster: slots,
                last_seen_epoch_ms: now,
                ..t.accounts[i]
            }),
            None => t.accounts.push(AccountView {
                account_name: name,
                client_addr: text,
                character_roster: slots,
                active_character: None,
                last_seen_epoch_ms: now,
            }),
        };
        (
            TrackerView { client_accounts: ca, accounts: accs, ..t },
            seq![EventView::AccountRosterLoaded { client_addr: client, account_name: name, characters: slots }],
        )
    }
}

/// The account name given to a client known only by its session.
pub open spec fn session_account(session_id: u32) -> Seq<char> {
    hash_number(session_id as nat)
}

/// Whether a character announcement is taken: a name, a level from 1 to
/// 130 and a non-zero object.
pub open spec fn user_info_valid(u: UserInfoView) -> bool {
    u.name.len() > 0 && 0 < u.level <= 130 && u.object_id != 0
}

/// A character updated from its announcement: identity, account, endpoint,
/// position and time always; class, level, experience, skill points and
/// the four hit and mana values only when announced non-zero.
pub open spec fn refreshed(
    c: CharacterView,
    u: UserInfoView,
    account: Option<Seq<char>>,
    client_text: Option<Seq<char>>,
    now: u64,
) -> CharacterView {
    CharacterView {
        object_id: u.object_id,
        account_name: account,
        name: u.name,
        class_id: if u.class_id > 0 { u.class_id } else { c.class_id },
        level: if u.level > 0 { u.level } else { c.level },
        exp: if u.exp > 0 { u.exp } else { c.exp },
        sp: if u.sp > 0 { u.sp } else { c.sp },
        client_addr: client_text,
        location: Location { x: u.x, y: u.y, z: u.z, heading: u.heading },
        vitals: Vitals {
            cur_hp: if u.cur_hp > 0 { u.cur_hp } else { c.vitals.cur_hp },
            max_hp: if u.max_hp > 0 { u.max_hp } else { c.vitals.max_hp },
            cur_mp: if u.cur_mp > 0 { u.cur_mp } else { c.vitals.cur_mp },
            max_mp: if u.max_mp > 0 { u.max_mp } else { c.vitals.max_mp },
            ..c.vitals
        },
        last_updated_epoch_ms: now,
        ..c
    }
}

/// Whether a roster lists a character by name or object.
pub open spec fn roster_mentions(r: Seq<CharSelectSlotView>, name: Seq<char>, id: u32) -> bool {
    exists|k: int| 0 <= k < r.len() && #[trigger] slot_names(r[k], name, id)
}

/// Whether a roster slot is the character, by name or object.
pub open spec fn slot_names(s: CharSelectSlotView, name: Seq<char>, id: u32) -> bool {
    s.name == name || s.char_id == id
}

/// Whether an account belongs to the endpoint or lists the character.
pub open spec fn account_claims(a: AccountView, text: Seq<char>, name: Seq<char>, id: u32) -> bool {
    a.client_addr == text || roster_mentions(a.character_roster, name, id)
}

/// Every account of the endpoint, or listing the character, makes it the
/// active one.
pub open spec fn mark_active(accs: Seq<AccountView>, text: Seq<char>, name: Seq<char>, id: u32, now: u64) -> Seq<AccountView> {
    Seq::new(accs.len(), |i: int| if account_claims(accs[i], text, name, id) {
        AccountView { active_character: Some(name), last_seen_epoch_ms: now, ..accs[i] }
    } else {
        accs[i]
    })
}

/// A character announces itself: ignored unless valid; otherwise it
/// becomes the client's character (and, when the client has no account
/// and a session is given, the session's account becomes the client's and
/// is announced), the character is created or refreshed and becomes the
/// last seen, its account marks it active, and it is announced.
pub open spec fn user_info_step(t: TrackerView, client: Option<Endpoint>, u: UserInfoView, now: u64) -> (TrackerView, Seq<EventView>) {
    if !user_info_valid(u) {
        (t, seq![])
    } else {
        let co = match client {
            Some(a) => set_link(t.client_objects, a, u.object_id),
            None => t.client_objects,
        };
        let fresh = client is Some && u.session_id > 0 && link_of(t.client_accounts, client->0) is None;
        let ca = if fresh { set_link(t.client_accounts, client->0, session_account(u.session_id)) } else { t.client_accounts };
        let ev: Seq<EventView> = if fresh {
            seq![EventView::AccountDetected { client_addr: client, account_name: session_account(u.session_id) }]
        } else {
            seq![]
        };
        let account = match client {
            Some(a) => link_of(ca, a),
            None => None,
        };
        let text = match client {
            Some(a) => Some(endpoint_text(a)),
            None => None,
        };
        let base = match character_at(t, u.object_id) {
            Some(i) => t.characters[i],
            None => blank_character(u.object_id),
        };
        let c = refreshed(base, u, account, text, now);
        let chars = match character_at(t, u.object_id) {
            Some(i) => t.characters.update(i, c),
            None => t.characters.push(c),
        };
        let accs = match account {
            Some(n) => match account_at(t, n) {
                Some(i) => t.accounts.update(i, AccountView {
                    active_character: Some(u.name),
                    last_seen_epoch_ms: now,
                    ..t.accounts[i]
                }),
                None => t.accounts.push(AccountView {
                    account_name: n,
                    client_addr: endpoint_text(client->0),
                    character_roster: seq![],
                    active_character: Some(u.name),
                    last_seen_epoch_ms: now,
                }),
            },
            None => match client {
                Some(a) => mark_active(t.accounts, endpoint_text(a), u.name, u.object_id, now),
                None => t.accounts,
            },
        };
        (
            TrackerView {
                characters: chars,
                client_objects: co,
                client_accounts: ca,
                accounts: accs,
                active: Some(u.object_id),
                ..t
            },
            ev + seq![EventView::CharacterLoaded { client_addr: client, character: c }],
        )
    }
}

/// Whether a packet about `object_id` from `client` is about another
/// object than the client's own character.
pub open spec fn foreign(t: TrackerView, client: Option<Endpoint>, object_id: u32) -> bool {
    match client {
        Some(a) => match link_of(t.client_objects, a) {
            Some(my) => object_id != my,
            None => false,
        },
        None => false,
    }
}

/// A character with one status attribute applied: 1 level, 2 experience,
/// 3 physical attack, 9 to 12 hit and mana points, 13 skill points, 33 and
/// 34 combat points; others change nothing.
pub open spec fn apply_attr(c: CharacterView, a: StatusUpdateAttribute) -> CharacterView {
    let v = a.value;
    if a.attr_id == 1 {
        CharacterView { level: v, ..c }
    } else if a.attr_id == 2 {
        CharacterView { exp: v as u64, ..c }
    } else if a.attr_id == 3 {
        CharacterView { stats: Stats { p_atk: v, ..c.stats }, ..c }
    } else if a.attr_id == 9 {
        CharacterView { vitals: Vitals { cur_hp: v, ..c.vitals }, ..c }
    } else if a.attr_id == 10 {
        CharacterView { vitals: Vitals { max_hp: v, ..c.vitals }, ..c }
    } else if a.attr_id == 11 {
        CharacterView { vitals: Vitals { cur_mp: v, ..c.vitals }, ..c }
    } else if a.attr_id == 12 {
        CharacterView { vitals: Vitals { max_mp: v, ..c.vitals }, ..c }
    } else if a.attr_id == 13 {
        CharacterView { sp: v, ..c }
    } else if a.attr_id == 33 {
        CharacterView { vitals: Vitals { cur_cp: v, ..c.vitals }, ..c }
    } else if a.attr_id == 34 {
        CharacterView { vitals: Vitals { max_cp: v, ..c.vitals }, ..c }
    } else {
        c
    }
}

/// A character with status attributes applied in order.
pub open spec fn apply_attrs(c: CharacterView, attrs: Seq<StatusUpdateAttribute>) -> CharacterView
    decreases attrs.len(),
{
    if attrs.len() == 0 {
        c
    } else {
        apply_attr(apply_attrs(c, attrs.drop_last()), attrs.last())
    }
}

/// Status attributes never change which character it is.
pub proof fn lemma_attrs_keep_identity(c: CharacterView, attrs: Seq<StatusUpdateAttribute>)
    ensures
        apply_attrs(c, attrs).object_id == c.object_id,
    decreases attrs.len(),
{
    if attrs.len() > 0 {
        lemma_attrs_keep_identity(c, attrs.drop_last());
    }
}

/// A status update for the client's own character (or any character
/// without a client association) is applied, timestamped and announced
/// with the resulting vitals; for untracked or foreign objects nothing
/// happens.
pub open spec fn status_step(
    t: TrackerView,
    client: Option<Endpoint>,
    object_id: u32,
    attrs: Seq<StatusUpdateAttribute>,
    now: u64,
) -> (TrackerView, Seq<EventView>) {
    if foreign(t, client, object_id) {
        (t, seq![])
    } else {
        match character_at(t, object_id) {
            Some(i) => {
                let c = CharacterView { last_updated_epoch_ms: now, ..apply_attrs(t.characters[i], attrs) };
                (
                    TrackerView { characters: t.characters.update(i, c), ..t },
                    seq![EventView::VitalsChanged { client_addr: client, object_id, vitals: c.vitals }],
                )
            },
            None => (t, seq![]),
        }
    }
}

/// A movement of the client's own character (or any character without a
/// client association) moves it to the target, keeping the heading; for
/// untracked or foreign objects nothing happens.
pub open spec fn move_step(t: TrackerView, client: Option<Endpoint>, mv: MoveToLocationPacket, now: u64) -> (TrackerView, Seq<EventView>) {
    if foreign(t, client, mv.object_id) {
        (t, seq![])
    } else {
        match character_at(t, mv.object_id) {
            Some(i) => {
                let old_c = t.characters[i];
                let loc = Location { x: mv.target_x, y: mv.target_y, z: mv.target_z, ..old_c.location };
                let c = CharacterView { location: loc, last_updated_epoch_ms: now, ..old_c };
                (
                    TrackerView { characters: t.characters.update(i, c), ..t },
                    seq![EventView::LocationChanged { client_addr: client, object_id: mv.object_id, location: loc }],
                )
            },
            None => (t, seq![]),
        }
    }
}

/// A full inventory: for the resolved character, stored and announced
/// unless it is empty while the stored one is not, or equals the stored
/// one; announced without storing when the character is not tracked.
pub open spec fn item_list_step(t: TrackerView, client: Option<Endpoint>, items: Seq<ItemInfoView>, now: u64) -> (TrackerView, Seq<EventView>) {
    match resolve_object(t, client) {
        None => (t, seq![]),
        Some(o) => match character_at(t, o) {
            Some(i) => {
                let c = t.characters[i];
                if (items.len() == 0 && c.inventory.len() > 0) || c.inventory == items {
                    (t, seq![])
                } else {
                    (
                        TrackerView {
                            characters: t.characters.update(i, CharacterView { inventory: items, last_updated_epoch_ms: now, ..c }),
                            ..t
                        },
                        seq![EventView::InventoryLoaded { client_addr: client, object_id: o, items }],
                    )
                }
            },
            None => (t, seq![EventView::InventoryLoaded { client_addr: client, object_id: o, items }]),
        },
    }
}

/// Whether an item is the one with object `id`.
pub open spec fn is_item(id: u32) -> spec_fn(ItemInfoView) -> bool {
    |x: ItemInfoView| x.object_id == id
}

/// An inventory with one item replaced by object, or appended when new.
pub open spec fn merge_item(inv: Seq<ItemInfoView>, it: ItemInfoView) -> Seq<ItemInfoView> {
    match first_index(inv, is_item(it.object_id), 0) {
        Some(p) => inv.update(p, it),
        None => inv.push(it),
    }
}

/// An inventory with updated items merged in order.
pub open spec fn merge_items(inv: Seq<ItemInfoView>, items: Seq<ItemInfoView>) -> Seq<ItemInfoView>
    decreases items.len(),
{
    if items.len() == 0 {
        inv
    } else {
        merge_item(merge_items(inv, items.drop_last()), items.last())
    }
}

/// Changed items: ignored when none; otherwise merged into the resolved
/// character's inventory, if tracked, and announced.
pub open spec fn inventory_update_step(t: TrackerView, client: Option<Endpoint>, items: Seq<ItemInfoView>, now: u64) -> (TrackerView, Seq<EventView>) {
    if items.len() == 0 {
        (t, seq![])
    } else {
        match resolve_object(t, client) {
            None => (t, seq![]),
            Some(o) => {
                let ev = seq![EventView::InventoryLoaded { client_addr: client, object_id: o, items }];
                match character_at(t, o) {
                    Some(i) => {
                        let c = t.characters[i];
                        (
                            TrackerView {
                                characters: t.characters.update(i, CharacterView {
                                    inventory: merge_items(c.inventory, items),
                                    last_updated_epoch_ms: now,
                                    ..c
                                }),
                                ..t
                            },
                            ev,
                        )
                    },
                    None => (t, ev),
                }
            },
        }
    }
}

/// Warehouse contents: stored on the resolved character (object 0 when
/// none resolves), if tracked, and announced.
pub open spec fn warehouse_step(t: TrackerView, client: Option<Endpoint>, wh: WarehouseListView, now: u64) -> (TrackerView, Seq<EventView>) {
    let o = match resolve_object(t, client) {
        Some(o) => o,
        None => 0u32,
    };
    let ev = seq![EventView::WarehouseLoaded {
        client_addr: client,
        object_id: o,
        wh_type: wh.wh_type,
        player_adena: wh.player_adena,
        items: wh.items,
    }];
    match character_at(t, o) {
        Some(i) => {
            let c = t.characters[i];
            (
                TrackerView {
                    characters: t.characters.update(i, CharacterView { warehouse: wh.items, last_updated_epoch_ms: now, ..c }),
                    ..t
                },
                ev,
            )
        },
        None => (t, ev),
    }
}

/// Learned skills: ignored when none; for the resolved character stored
/// and announced unless unchanged; announced without storing when the
/// character is not tracked.
pub open spec fn skill_step(t: TrackerView, client: Option<Endpoint>, skills: Seq<SkillEntry>, now: u64) -> (TrackerView, Seq<EventView>) {
    if skills.len() == 0 {
        (t, seq![])
    } else {
        match resolve_object(t, client) {
            None => (t, seq![]),
            Some(o) => {
                let ev = seq![EventView::SkillsUpdated { client_addr: client, object_id: o, skills }];
                match character_at(t, o) {
                    Some(i) => {
                        let c = t.characters[i];
                        if c.skills == skills {
                            (t, seq![])
                        } else {
                            (
                                TrackerView {
                                    characters: t.characters.update(i, CharacterView { skills, last_updated_epoch_ms: now, ..c }),
                                    ..t
                                },
                                ev,
                            )
                        }
                    },
                    None => (t, ev),
                }
            },
        }
    }
}

/// Active effects: for the resolved character stored and announced unless
/// unchanged; announced without storing when the character is not tracked.
pub open spec fn buff_step(t: TrackerView, client: Option<Endpoint>, buffs: Seq<BuffEffect>, now: u64) -> (TrackerView, Seq<EventView>) {
    match resolve_object(t, client) {
        None => (t, seq![]),
        Some(o) => {
            let ev = seq![EventView::BuffsUpdated { client_addr: client, object_id: o, buffs }];
            match character_at(t, o) {
                Some(i) => {
                    let c = t.characters[i];
                    if c.buffs == buffs {
                        (t, seq![])
                    } else {
                        (
                            TrackerView {
                                characters: t.characters.update(i, CharacterView { buffs, last_updated_epoch_ms: now, ..c }),
                                ..t
                            },
                            ev,
                        )
                    }
                },
                None => (t, ev),
            }
        },
    }
}

/// A player's store: recorded under its seller (with the seller's name when
/// the seller is tracked), replacing an earlier one, and announced.
pub open spec fn store_step(t: TrackerView, client: Option<Endpoint>, ps: PrivateStoreView, now: u64) -> (TrackerView, Seq<EventView>) {
    let seller_name = match character_at(t, ps.seller_object_id) {
        Some(i) => Some(t.characters[i].name),
        None => None,
    };
    let sv = StoreView {
        seller_object_id: ps.seller_object_id,
        seller_name,
        store_type: ps.store_type,
        store_title: ps.store_title,
        items: ps.items,
        last_seen_epoch_ms: now,
    };
    let stores = match store_at(t, ps.seller_object_id) {
        Some(i) => t.stores.update(i, sv),
        None => t.stores.push(sv),
    };
    (TrackerView { stores, ..t }, seq![EventView::PrivateStoreUpdated { client_addr: client, store: sv }])
}

/// What a packet does to the tracker and what it announces.
pub open spec fn packet_step(t: TrackerView, client: Option<Endpoint>, p: PacketView, now: u64) -> (TrackerView, Seq<EventView>) {
    match p {
        PacketView::AuthLogin(a) => auth_login_step(t, client, a.account_name, now),
        PacketView::CharSelectInfo(i) => char_select_step(t, client, i.account_name, i.character_slots, now),
        PacketView::UserInfo(u) => user_info_step(t, client, u, now),
        PacketView::StatusUpdate(s) => status_step(t, client, s.object_id, s.attributes, now),
        PacketView::ItemList(l) => item_list_step(t, client, l.items, now),
        PacketView::InventoryUpdate(u) => inventory_update_step(t, client, u.items, now),
        PacketView::WarehouseList(w) => warehouse_step(t, client, w, now),
        PacketView::SkillList(l) => skill_step(t, client, l.skills, now),
        PacketView::AbnormalStatusUpdate(a) => buff_step(t, client, a.buffs, now),
        PacketView::MagicEffectIcons(m) => buff_step(t, client, m.buffs, now),
        PacketView::PrivateStore(ps) => store_step(t, client, ps, now),
        PacketView::CommissionList(c) => (
            TrackerView { commission: c.items, ..t },
            seq![EventView::CommissionMarketUpdated { items: c.items }],
        ),
        PacketView::WorldExchangeList(w) => (
            TrackerView { exchange: w.items, ..t },
            seq![EventView::WorldExchangeUpdated { items: w.items }],
        ),
        PacketView::EinhasadStore(e) => (
            TrackerView { einhasad: e.products, ..t },
            seq![EventView::EinhasadStoreUpdated { products: e.products }],
        ),
        PacketView::MoveToLocation(mv) => move_step(t, client, mv, now),
        PacketView::Raw { opcode, payload } => (
            t,
            seq![EventView::RawPacketReceived { client_addr: client, opcode, length: payload.len() as usize }],
        ),
        PacketView::SystemMessage(_) => (t, seq![]),
    }
}

/// Whether a character is named `name`, ignoring ASCII case.
pub open spec fn is_named(name: Seq<char>) -> spec_fn(CharacterView) -> bool {
    |c: CharacterView| eq_ignore_ascii_case(c.name, name)
}

/// Whether a character was last seen on the account.
pub open spec fn plays_account(name: Seq<char>) -> spec_fn(CharacterView) -> bool {
    |c: CharacterView| c.account_name == Some(name)
}

/// Whether a character was last seen on the endpoint.
pub open spec fn plays_on(text: Seq<char>) -> spec_fn(CharacterView) -> bool {
    |c: CharacterView| c.client_addr == Some(text)
}

/// Whether a character is the roster slot's, by name or object.
pub open spec fn fills_slot(s: CharSelectSlotView) -> spec_fn(CharacterView) -> bool {
    |c: CharacterView| c.name == s.name || c.object_id == s.char_id
}

/// The name of the first tracked character that fills a roster slot from
/// `k` on, trying the slots in order.
pub open spec fn roster_match(r: Seq<CharSelectSlotView>, cs: Seq<CharacterView>, k: int) -> Option<Seq<char>>
    decreases r.len() - k,
{
    if k < 0 || k >= r.len() {
        None
    } else {
        match first_index(cs, fills_slot(r[k]), 0) {
            Some(i) => Some(cs[i].name),
            None => roster_match(r, cs, k + 1),
        }
    }
}

/// An account as reported: when no character is marked active, the first
/// character seen on the account, else the first seen on its endpoint (if
/// it has one), else the first that fills a roster slot.
pub open spec fn resolved_account(a: AccountView, cs: Seq<CharacterView>) -> AccountView {
    if a.active_character is Some {
        a
    } else {
        let first = match first_index(cs, plays_account(a.account_name), 0) {
            Some(i) => Some(cs[i].name),
            None => if a.client_addr.len() > 0 {
                match first_index(cs, plays_on(a.client_addr), 0) {
                    Some(i) => Some(cs[i].name),
                    None => None,
                }
            } else {
                None
            },
        };
        let active = match first {
            Some(n) => Some(n),
            None => roster_match(a.character_roster, cs, 0),
        };
        AccountView { active_character: active, ..a }
    }
}

/// A blank character.
fn blank(object_id: u32) -> (c: Character)
    ensures
        c@ == blank_character(object_id),
{
    let c = Character {
        object_id,
        account_name: None,
        name: String::new(),
        title: String::new(),
        class_id: 0,
        level: 0,
        exp: 0,
        sp: 0,
        karma: 0,
        pk_kills: 0,
        pvp_kills: 0,
        location: Location { x: 0, y: 0, z: 0, heading: 0 },
        vitals: Vitals { cur_hp: 0, max_hp: 0, cur_mp: 0, max_mp: 0, cur_cp: 0, max_cp: 0 },
        stats: Stats { p_atk: 0, p_def: 0, m_atk: 0, m_def: 0, p_atk_spd: 0, m_atk_spd: 0, run_spd: 0, walk_spd: 0 },
        skills: Vec::new(),
        buffs: Vec::new(),
        inventory: Vec::new(),
        warehouse: Vec::new(),
        client_addr: None,
        last_updated_epoch_ms: 0,
    };
    assert(c@.name =~= Seq::<char>::empty());
    assert(c@.title =~= Seq::<char>::empty());
    assert(c@.inventory =~= Seq::<ItemInfoView>::empty());
    assert(c@.warehouse =~= Seq::<ItemInfoView>::empty());
    c
}

/// Updates a character from its announcement.
fn refresh(c: &mut Character, u: &UserInfoPacket, account: Option<String>, client_text: Option<String>, now: u64)
    ensures
        final(c)@ == refreshed(old(c)@, u@, text_opt(account), text_opt(client_text), now),
{
    c.object_id = u.object_id;
    c.account_name = account;
    c.name = u.name.clone();
    if u.class_id > 0 { c.class_id = u.class_id; }
    if u.level > 0 { c.level = u.level; }
    if u.exp > 0 { c.exp = u.exp; }
    if u.sp > 0 { c.sp = u.sp; }
    c.client_addr = client_text;
    c.location = Location { x: u.x, y: u.y, z: u.z, heading: u.heading };
    if u.cur_hp > 0 { c.vitals.cur_hp = u.cur_hp; }
    if u.max_hp > 0 { c.vitals.max_hp = u.max_hp; }
    if u.cur_mp > 0 { c.vitals.cur_mp = u.cur_mp; }
    if u.max_mp > 0 { c.vitals.max_mp = u.max_mp; }
    c.last_updated_epoch_ms = now;
}

/// Whether a roster lists a character by name or object.
fn roster_lists(r: &Vec<CharSelectSlot>, name: &str, id: u32) -> (b: bool)
    ensures
        b == roster_mentions(views(r@), name@, id),
{
    let mut k: usize = 0;
    while k < r.len()
        invariant
            k <= r@.len(),
            forall|j: int| 0 <= j < k ==> !(#[trigger] slot_names(views(r@)[j], name@, id)),
        decreases r@.len() - k,
    {
        if same_text(r[k].name.as_str(), name) || r[k].char_id == id {
            assert(slot_names(views(r@)[k as int], name@, id));
            return true;
        }
        k = k + 1;
    }
    false
}

/// Applies status attributes in order and stamps the time.
fn apply_status(c: &mut Character, attrs: &Vec<StatusUpdateAttribute>, now: u64)
    ensures
        final(c)@ == (CharacterView { last_updated_epoch_ms: now, ..apply_attrs(old(c)@, attrs@) }),
{
    let mut i: usize = 0;
    while i < attrs.len()
        invariant
            i <= attrs@.len(),
            c@ == apply_attrs(old(c)@, attrs@.take(i as int)),
        decreases attrs@.len() - i,
    {
        let a = attrs[i];
        let v = a.value;
        if a.attr_id == 1 {
            c.level = v;
        } else if a.attr_id == 2 {
            c.exp = v as u64;
        } else if a.attr_id == 3 {
            c.stats.p_atk = v;
        } else if a.attr_id == 9 {
            c.vitals.cur_hp = v;
        } else if a.attr_id == 10 {
            c.vitals.max_hp = v;
        } else if a.attr_id == 11 {
            c.vitals.cur_mp = v;
        } else if a.attr_id == 12 {
            c.vitals.max_mp = v;
        } else if a.attr_id == 13 {
            c.sp = v;
        } else if a.attr_id == 33 {
            c.vitals.cur_cp = v;
        } else if a.attr_id == 34 {
            c.vitals.max_cp = v;
        }
        assert(attrs@.take(i + 1).drop_last() =~= attrs@.take(i as int));
        assert(attrs@.take(i + 1).last() == a);
        i = i + 1;
    }
    assert(attrs@.take(i as int) =~= attrs@);
    c.last_updated_epoch_ms = now;
}

/// Whether two item lists are equal.
fn items_same(a: &Vec<InventoryItem>, b: &Vec<InventoryItem>) -> (r: bool)
    ensures
        r == (views(a@) == views(b@)),
{
    if a.len() != b.len() {
        assert(views(a@).len() != views(b@).len());
        return false;
    }
    let mut i: usize = 0;
    while i < a.len()
        invariant
            a@.len() == b@.len(),
            i <= a@.len(),
            forall|j: int| 0 <= j < i ==> views(a@)[j] == views(b@)[j],
        decreases a@.len() - i,
    {
        let x = &a[i];
        let y = &b[i];
        let same = x.object_id == y.object_id && x.item_id == y.item_id && x.count == y.count
            && x.item_type == y.item_type && same_text(x.item_type_name.as_str(), y.item_type_name.as_str())
            && x.equipped == y.equipped && x.slot == y.slot && x.enchant_level == y.enchant_level
            && x.custom_type1 == y.custom_type1 && x.is_augmented == y.is_augmented && x.mana == y.mana
            && x.durability == y.durability;
        if !same {
            assert(views(a@)[i as int] != views(b@)[i as int]);
            return false;
        }
        i = i + 1;
    }
    assert(views(a@) =~= views(b@));
    true
}

/// Whether two skill lists are equal.
fn skills_same(a: &Vec<SkillEntry>, b: &Vec<SkillEntry>) -> (r: bool)
    ensures
        r == (a@ == b@),
{
    if a.len() != b.len() {
        return false;
    }
    let mut i: usize = 0;
    while i < a.len()
        invariant
            a@.len() == b@.len(),
            i <= a@.len(),
            forall|j: int| 0 <= j < i ==> a@[j] == b@[j],
        decreases a@.len() - i,
    {
        let x = a[i];
        let y = b[i];
        if !(x.skill_id == y.skill_id && x.level == y.level && x.sub_level == y.sub_level
            && x.is_passive == y.is_passive && x.is_disabled == y.is_disabled && x.enchant_type == y.enchant_type) {
            assert(a@[i as int] != b@[i as int]);
            return false;
        }
        i = i + 1;
    }
    assert(a@ =~= b@);
    true
}

/// Whether two effect lists are equal.
fn buffs_same(a: &Vec<BuffEffect>, b: &Vec<BuffEffect>) -> (r: bool)
    ensures
        r == (a@ == b@),
{
    if a.len() != b.len() {
        return false;
    }
    let mut i: usize = 0;
    while i < a.len()
        invariant
            a@.len() == b@.len(),
            i <= a@.len(),
            forall|j: int| 0 <= j < i ==> a@[j] == b@[j],
        decreases a@.len() - i,
    {
        let x = a[i];
        let y = b[i];
        if !(x.skill_id == y.skill_id && x.level == y.level && x.sub_level == y.sub_level
            && x.duration_secs == y.duration_secs && x.abnormal_type == y.abnormal_type && x.is_debuff == y.is_debuff) {
            assert(a@[i as int] != b@[i as int]);
            return false;
        }
        i = i + 1;
    }
    assert(a@ =~= b@);
    true
}

/// Merges updated items into an inventory, in order.
fn merge_into(inv: &mut Vec<InventoryItem>, items: &Vec<InventoryItem>)
    ensures
        views(final(inv)@) == merge_items(views(old(inv)@), views(items@)),
{
    let mut i: usize = 0;
    while i < items.len()
        invariant
            i <= items@.len(),
            views(inv@) == merge_items(views(old(inv)@), views(items@).take(i as int)),
        decreases items@.len() - i,
    {
        let it = items[i].duplicate();
        let ghost before = views(inv@);
        let mut p: usize = 0;
        while p < inv.len() && inv[p].object_id != it.object_id
            invariant
                p <= inv@.len(),
                views(inv@) == before,
                first_index(before, is_item(it.object_id), 0) == first_index(before, is_item(it.object_id), p as int),
            decreases inv@.len() - p,
        {
            p = p + 1;
        }
        let found = p < inv.len();
        proof {
            assert(views(items@).take(i + 1).drop_last() =~= views(items@).take(i as int));
            assert(views(items@).take(i + 1).last() == it@);
        }
        if found {
            inv.set(p, it);
            assert(views(inv@) =~= before.update(p as int, it@));
        } else {
            inv.push(it);
            assert(views(inv@) =~= before.push(it@));
        }
        i = i + 1;
    }
    assert(views(items@).take(i as int) =~= views(items@));
}

impl CharacterTracker {
    /// Whether the tracker's invariant holds.
    pub open spec fn wf(&self) -> bool {
        tracker_wf(self@)
    }

    /// A tracker that has seen nothing.
    pub fn new() -> (t: Self)
        ensures
            t@ == empty_tracker(),
            t.wf(),
    {
        let t = CharacterTracker {
            characters: Vec::new(),
            client_to_object: Vec::new(),
            client_to_account: Vec::new(),
            accounts: Vec::new(),
            private_stores: Vec::new(),
            commission_items: Vec::new(),
            world_exchange_items: Vec::new(),
            einhasad_products: Vec::new(),
            active_player_id: None,
        };
        assert(t@.characters =~= Seq::<CharacterView>::empty());
        assert(t@.client_accounts =~= Seq::<(Endpoint, Seq<char>)>::empty());
        assert(t@.accounts =~= Seq::<AccountView>::empty());
        assert(t@.stores =~= Seq::<StoreView>::empty());
        assert(t@.commission =~= Seq::<CommissionItemView>::empty());
        assert(t@.exchange =~= Seq::<WorldExchangeItemView>::empty());
        t
    }

    /// Position of the character with `id`.
    fn find_character(&self, id: u32) -> (r: Option<usize>)
        ensures
            match r {
                Some(i) => character_at(self@, id) == Some(i as int) && i < self.characters@.len(),
                None => character_at(self@, id) is None,
            },
    {
        let mut i: usize = 0;
        while i < self.characters.len()
            invariant
                i <= self.characters@.len(),
                first_index(self.characters@, stored_character(id), 0)
                    == first_index(self.characters@, stored_character(id), i as int),
            decreases self.characters@.len() - i,
        {
            if self.characters[i].object_id == id {
                proof { lemma_first_index_map(self.characters@, |c: Character| c@, is_character(id), stored_character(id), 0); }
                return Some(i);
            }
            i = i + 1;
        }
        proof { lemma_first_index_map(self.characters@, |c: Character| c@, is_character(id), stored_character(id), 0); }
        None
    }

    /// Position of the account named `name`.
    fn find_account(&self, name: &str) -> (r: Option<usize>)
        ensures
            match r {
                Some(i) => account_at(self@, name@) == Some(i as int) && i < self.accounts@.len(),
                None => account_at(self@, name@) is None,
            },
    {
        let mut i: usize = 0;
        while i < self.accounts.len()
            invariant
                i <= self.accounts@.len(),
                first_index(self.accounts@, stored_account(name@), 0)
                    == first_index(self.accounts@, stored_account(name@), i as int),
            decreases self.accounts@.len() - i,
        {
            if same_text(self.accounts[i].account_name.as_str(), name) {
                proof { lemma_first_index_map(self.accounts@, |a: AccountSession| a@, is_account(name@), stored_account(name@), 0); }
                return Some(i);
            }
            i = i + 1;
        }
        proof { lemma_first_index_map(self.accounts@, |a: AccountSession| a@, is_account(name@), stored_account(name@), 0); }
        None
    }

    /// Position of the seller's store.
    fn find_store(&self, id: u32) -> (r: Option<usize>)
        ensures
            match r {
                Some(i) => store_at(self@, id) == Some(i as int) && i < self.private_stores@.len(),
                None => store_at(self@, id) is None,
            },
    {
        let mut i: usize = 0;
        while i < self.private_stores.len()
            invariant
                i <= self.private_stores@.len(),
                first_index(self.private_stores@, stored_store(id), 0)
                    == first_index(self.private_stores@, stored_store(id), i as int),
            decreases self.private_stores@.len() - i,
        {
            if self.private_stores[i].seller_object_id == id {
                proof { lemma_first_index_map(self.private_stores@, |s: PrivateStoreSession| s@, is_store(id), stored_store(id), 0); }
                return Some(i);
            }
            i = i + 1;
        }
        proof { lemma_first_index_map(self.private_stores@, |s: PrivateStoreSession| s@, is_store(id), stored_store(id), 0); }
        None
    }

    /// The character object a client plays, if recorded.
    fn object_of_client(&self, a: Endpoint) -> (r: Option<u32>)
        ensures
            r == link_of(self@.client_objects, a),
    {
        proof { lemma_first_index(self@.client_objects, is_client::<u32>(a), 0); }
        match find_link(&self.client_to_object, a) {
            Some(i) => Some(self.client_to_object[i].1),
            None => None,
        }
    }

    /// The account a client is logged in as, if recorded.
    fn account_of_client(&self, a: Endpoint) -> (r: Option<String>)
        ensures
            text_opt(r) == link_of(self@.client_accounts, a),
    {
        proof {
            lemma_first_index_map(self.client_to_account@, |p: (Endpoint, String)| (p.0, p.1@), is_client::<Seq<char>>(a), is_client::<String>(a), 0);
            lemma_first_index(self.client_to_account@, is_client::<String>(a), 0);
        }
        match find_link(&self.client_to_account, a) {
            Some(i) => Some(self.client_to_account[i].1.clone()),
            None => None,
        }
    }

    /// Announces a client connection.
    pub fn register_client_connection(&self, client_addr: Endpoint, server_addr: Endpoint) -> (events: Vec<CompanionEvent>)
        ensures
            views(events@) == connect_step(self@, client_addr, server_addr).1,
    {
        let mut events: Vec<CompanionEvent> = Vec::new();
        events.push(CompanionEvent::ClientConnected { client_addr, server_addr });
        assert(views(events@) =~= connect_step(self@, client_addr, server_addr).1);
        events
    }

    /// Forgets a disconnected client's associations and announces it.
    pub fn unregister_client_connection(&mut self, client_addr: Endpoint, reason: String) -> (events: Vec<CompanionEvent>)
        requires
            old(self).wf(),
        ensures
            final(self).wf(),
            final(self)@ == disconnect_step(old(self)@, client_addr, reason@).0,
            views(events@) == disconnect_step(old(self)@, client_addr, reason@).1,
    {
        let ghost t = self@;
        proof {
            lemma_drop_link(t.client_objects, client_addr);
            lemma_drop_link(t.client_accounts, client_addr);
            lemma_first_index_map(self.client_to_account@, |p: (Endpoint, String)| (p.0, p.1@), is_client::<Seq<char>>(client_addr), is_client::<String>(client_addr), 0);
        }
        if let Some(i) = find_link(&self.client_to_object, client_addr) {
            self.client_to_object.remove(i);
        }
        let ghost before = self.client_to_account@;
        if let Some(i) = find_link(&self.client_to_account, client_addr) {
            self.client_to_account.remove(i);
            assert(text_links(self.client_to_account@) =~= text_links(before).remove(i as int));
        }
        let mut events: Vec<CompanionEvent> = Vec::new();
        events.push(CompanionEvent::ClientDisconnected { client_addr, reason });
        assert(views(events@) =~= disconnect_step(t, client_addr, reason@).1);
        assert(self@ == disconnect_step(t, client_addr, reason@).0);
        events
    }

    /// Associates a client with an account name.
    fn link_account(&mut self, a: Endpoint, name: &String)
        requires
            old(self).wf(),
        ensures
            final(self)@ == (TrackerView { client_accounts: set_link(old(self)@.client_accounts, a, name@), ..old(self)@ }),
            final(self).wf(),
    {
        let ghost t = self@;
        let ghost before = self.client_to_account@;
        proof {
            lemma_set_link(t.client_accounts, a, name@);
            lemma_first_index_map(self.client_to_account@, |p: (Endpoint, String)| (p.0, p.1@), is_client::<Seq<char>>(a), is_client::<String>(a), 0);
        }
        match find_link(&self.client_to_account, a) {
            Some(i) => {
                self.client_to_account.set(i, (a, name.clone()));
                assert(text_links(self.client_to_account@) =~= text_links(before).update(i as int, (a, name@)));
            },
            None => {
                self.client_to_account.push((a, name.clone()));
                assert(text_links(self.client_to_account@) =~= text_links(before).push((a, name@)));
            },
        }
    }

    /// Records a login.
    fn handle_auth_login(&mut self, client: Option<Endpoint>, auth: &AuthLoginPacket, now: u64) -> (events: Vec<CompanionEvent>)
        requires
            old(self).wf(),
        ensures
            final(self).wf(),
            final(self)@ == auth_login_step(old(self)@, client, auth.account_name@, now).0,
            views(events@) == auth_login_step(old(self)@, client, auth.account_name@, now).1,
    {
        let ghost t = self@;
        let mut events: Vec<CompanionEvent> = Vec::new();
        let name = &auth.account_name;
        if name.as_str().unicode_len() == 0 {
            assert(views(events@) =~= Seq::<EventView>::empty());
            return events;
        }
        match client {
            Some(a) => {
                if let Some(cur) = self.account_of_client(a) {
                    if same_text(cur.as_str(), name.as_str()) {
                        assert(views(events@) =~= Seq::<EventView>::empty());
                        return events;
                    }
                }
                self.link_account(a, name);
                let text = a.to_text();
                match self.find_account(name.as_str()) {
                    Some(j) => {
                        let ghost accs = views(self.accounts@);
                        let mut acc = self.accounts.remove(j);
                        acc.client_addr = text;
                        acc.last_seen_epoch_ms = now;
                        self.accounts.insert(j, acc);
                        proof {
                            assert(views(self.accounts@) =~= accs.update(j as int, AccountView {
                                client_addr: endpoint_text(a),
                                last_seen_epoch_ms: now,
                                ..accs[j as int]
                            }));
                            lemma_update_distinct(accs, account_key(), j as int, views(self.accounts@)[j as int]);
                        }
                        assert(views(events@) =~= Seq::<EventView>::empty());
                    },
                    None => {
                        let ghost accs = views(self.accounts@);
                        let acc = AccountSession {
                            account_name: name.clone(),
                            client_addr: text,
                            character_roster: Vec::new(),
                            active_character: None,
                            last_seen_epoch_ms: now,
                        };
                        assert(acc@.character_roster =~= Seq::<CharSelectSlotView>::empty());
                        self.accounts.push(acc);
                        proof {
                            assert(views(self.accounts@) =~= accs.push(acc@));
                            lemma_first_index(accs, is_account(name@), 0);
                            lemma_push_distinct(accs, account_key(), acc@);
                        }
                        events.push(CompanionEvent::AccountDetected { client_addr: client, account_name: name.clone() });
                        assert(views(events@) =~= seq![EventView::AccountDetected { client_addr: client, account_name: name@ }]);
                    },
                }
            },
            None => {
                events.push(CompanionEvent::AccountDetected { client_addr: None, account_name: name.clone() });
                assert(views(events@) =~= seq![EventView::AccountDetected { client_addr: None, account_name: name@ }]);
            },
        }
        events
    }

    /// Associates a client with a character object.
    fn link_object(&mut self, a: Endpoint, id: u32)
        requires
            old(self).wf(),
        ensures
            final(self)@ == (TrackerView { client_objects: set_link(old(self)@.client_objects, a, id), ..old(self)@ }),
            final(self).wf(),
    {
        proof { lemma_set_link(self@.client_objects, a, id); }
        match find_link(&self.client_to_object, a) {
            Some(i) => { self.client_to_object.set(i, (a, id)); },
            None => { self.client_to_object.push((a, id)); },
        }
    }

    /// Records a character roster.
    fn handle_char_select_info(&mut self, client: Option<Endpoint>, info: CharSelectInfoPacket, now: u64) -> (events: Vec<CompanionEvent>)
        requires
            old(self).wf(),
        ensures
            final(self).wf(),
            final(self)@ == char_select_step(old(self)@, client, info@.account_name, info@.character_slots, now).0,
            views(events@) == char_select_step(old(self)@, client, info@.account_name, info@.character_slots, now).1,
    {
        let ghost t = self@;
        let ghost step = char_select_step(t, client, info@.account_name, info@.character_slots, now);
        let mut events: Vec<CompanionEvent> = Vec::new();
        if info.character_slots.len() == 0 {
            assert(views(events@) =~= Seq::<EventView>::empty());
            return events;
        }
        let named = info.account_name.as_str().unicode_len() > 0;
        let name: String = if named {
            info.account_name.clone()
        } else {
            match client {
                Some(a) => match self.account_of_client(a) {
                    Some(n) => n,
                    None => "GameAccount".to_owned(),
                },
                None => "GameAccount".to_owned(),
            }
        };
        proof { reveal_strlit("GameAccount"); }
        assert(name@ == (if info@.account_name.len() > 0 {
            info@.account_name
        } else {
            match client {
                Some(a) => match link_of(t.client_accounts, a) {
                    Some(n) => n,
                    None => fallback_account(),
                },
                None => fallback_account(),
            }
        }));
        if named {
            if let Some(a) = client {
                self.link_account(a, &info.account_name);
            }
        }
        let ghost accs = views(self.accounts@);
        assert(accs == t.accounts);
        let roster = duplicate_all(&info.character_slots);
        assert(views(roster@) == info@.character_slots);
        match self.find_account(name.as_str()) {
            Some(j) => {
                let mut acc = self.accounts.remove(j);
                acc.character_roster = roster;
                acc.last_seen_epoch_ms = now;
                self.accounts.insert(j, acc);
                proof {
                    assert(views(self.accounts@) =~= accs.update(j as int, AccountView {
                        character_roster: info@.character_slots,
                        last_seen_epoch_ms: now,
                        ..accs[j as int]
                    }));
                    lemma_update_distinct(accs, account_key(), j as int, views(self.accounts@)[j as int]);
                }
            },
            None => {
                let text = match client {
                    Some(a) => a.to_text(),
                    None => String::new(),
                };
                let acc = AccountSession {
                    account_name: name.clone(),
                    client_addr: text,
                    character_roster: roster,
                    active_character: None,
                    last_seen_epoch_ms: now,
                };
                self.accounts.push(acc);
                proof {
                    assert(acc@.client_addr =~= (match client {
                        Some(a) => endpoint_text(a),
                        None => Seq::<char>::empty(),
                    }));
                    assert(views(self.accounts@) =~= accs.push(acc@));
                    lemma_first_index(accs, is_account(name@), 0);
                    lemma_push_distinct(accs, account_key(), acc@);
                }
            },
        }
        events.push(CompanionEvent::AccountRosterLoaded { client_addr: client, account_name: name, characters: info.character_slots });
        assert(views(events@) =~= step.1);
        assert(self@ == step.0);
        events
    }

    /// Records a character announcement.
    fn handle_user_info(&mut self, client: Option<Endpoint>, info: &UserInfoPacket, now: u64) -> (events: Vec<CompanionEvent>)
        requires
            old(self).wf(),
        ensures
            final(self).wf(),
            final(self)@ == user_info_step(old(self)@, client, info@, now).0,
            views(events@) == user_info_step(old(self)@, client, info@, now).1,
    {
        let ghost t = self@;
        let ghost step = user_info_step(t, client, info@, now);
        let mut events: Vec<CompanionEvent> = Vec::new();
        if info.name.as_str().unicode_len() == 0 || info.level == 0 || info.level > 130 || info.object_id == 0 {
            assert(views(events@) =~= Seq::<EventView>::empty());
            return events;
        }
        let mut account: Option<String> = None;
        if let Some(a) = client {
            self.link_object(a, info.object_id);
            if info.session_id > 0 && self.account_of_client(a).is_none() {
                let acc_id = hash_number_string(info.session_id as u64);
                self.link_account(a, &acc_id);
                events.push(CompanionEvent::AccountDetected { client_addr: client, account_name: acc_id });
            }
            account = self.account_of_client(a);
        }
        let ghost ev = views(events@);
        let ghost fresh = client is Some && info.session_id > 0 && link_of(t.client_accounts, client->0) is None;
        assert(ev =~= (if fresh {
            seq![EventView::AccountDetected { client_addr: client, account_name: session_account(info.session_id) }]
        } else {
            Seq::<EventView>::empty()
        }));
        let ghost mid = self@;
        let text: Option<String> = match client {
            Some(a) => Some(a.to_text()),
            None => None,
        };
        let stored_account = copy_text_opt(&account);
        let ghost chars = views(self.characters@);
        let k: usize = match self.find_character(info.object_id) {
            Some(i) => i,
            None => {
                self.characters.push(blank(info.object_id));
                assert(views(self.characters@) =~= chars.push(blank_character(info.object_id)));
                self.characters.len() - 1
            },
        };
        refresh(&mut self.characters[k], info, stored_account, text, now);
        let ghost c = refreshed(
            match character_at(t, info.object_id) {
                Some(i) => t.characters[i],
                None => blank_character(info.object_id),
            },
            info@,
            text_opt(account),
            match client {
                Some(a) => Some(endpoint_text(a)),
                None => None,
            },
            now,
        );
        proof {
            lemma_first_index(chars, is_character(info.object_id), 0);
            match character_at(t, info.object_id) {
                Some(i) => {
                    assert(views(self.characters@) =~= chars.update(i, c));
                    lemma_update_distinct(chars, character_key(), i, c);
                },
                None => {
                    assert(views(self.characters@) =~= chars.push(c));
                    lemma_push_distinct(chars, character_key(), c);
                },
            }
        }
        self.active_player_id = Some(info.object_id);
        let ghost accs = views(self.accounts@);
        let ghost pre = self@;
        match &account {
            Some(n) => {
                match self.find_account(n.as_str()) {
                    Some(j) => {
                        let mut acc = self.accounts.remove(j);
                        acc.active_character = Some(info.name.clone());
                        acc.last_seen_epoch_ms = now;
                        self.accounts.insert(j, acc);
                        proof {
                            assert(views(self.accounts@) =~= accs.update(j as int, AccountView {
                                active_character: Some(info@.name),
                                last_seen_epoch_ms: now,
                                ..accs[j as int]
                            }));
                            lemma_update_distinct(accs, account_key(), j as int, views(self.accounts@)[j as int]);
                        }
                    },
                    None => {
                        let a = match client { Some(a) => a, None => Endpoint { ip: 0, port: 0 } };
                        let acc = AccountSession {
                            account_name: n.clone(),
                            client_addr: a.to_text(),
                            character_roster: Vec::new(),
                            active_character: Some(info.name.clone()),
                            last_seen_epoch_ms: now,
                        };
                        assert(acc@.character_roster =~= Seq::<CharSelectSlotView>::empty());
                        self.accounts.push(acc);
                        proof {
                            assert(views(self.accounts@) =~= accs.push(acc@));
                            lemma_first_index(accs, is_account(n@), 0);
                            lemma_push_distinct(accs, account_key(), acc@);
                        }
                    },
                }
            },
            None => {
                if let Some(a) = client {
                    let text = a.to_text();
                    let mut j: usize = 0;
                    while j < self.accounts.len()
                        invariant
                            j <= self.accounts@.len(),
                            self.accounts@.len() == accs.len(),
                            text@ == endpoint_text(a),
                            self@ == (TrackerView { accounts: views(self.accounts@), ..pre }),
                            k < self.characters@.len(),
                            pre.accounts == accs,
                            forall|m: int| 0 <= m < j ==> views(self.accounts@)[m] == mark_active(accs, text@, info@.name, info.object_id, now)[m],
                            forall|m: int| j <= m < accs.len() ==> views(self.accounts@)[m] == accs[m],
                        decreases accs.len() - j,
                    {
                        let claims = same_text(self.accounts[j].client_addr.as_str(), text.as_str())
                            || roster_lists(&self.accounts[j].character_roster, info.name.as_str(), info.object_id);
                        let ghost before = views(self.accounts@);
                        if claims {
                            let mut acc = self.accounts.remove(j);
                            acc.active_character = Some(info.name.clone());
                            acc.last_seen_epoch_ms = now;
                            self.accounts.insert(j, acc);
                            assert(views(self.accounts@) =~= before.update(j as int, acc@));
                        }
                        assert(views(self.accounts@)[j as int] == mark_active(accs, text@, info@.name, info.object_id, now)[j as int]);
                        j = j + 1;
                    }
                    proof {
                        assert(views(self.accounts@) =~= mark_active(accs, text@, info@.name, info.object_id, now));
                        assert forall|x: int, y: int| 0 <= x < y < views(self.accounts@).len() implies
                            account_key()(views(self.accounts@)[x]) != account_key()(views(self.accounts@)[y]) by {
                            assert(account_key()(accs[x]) != account_key()(accs[y]));
                        }
                    }
                }
            },
        }
        let character = self.characters[k].duplicate();
        assert(views(self.characters@)[k as int] == c);
        assert(character@ == c);
        assert(text_opt(account) == (match client {
            Some(a) => link_of(mid.client_accounts, a),
            None => None,
        }));
        let ghost before_events = views(events@);
        events.push(CompanionEvent::CharacterLoaded { client_addr: client, character });
        assert(views(events@) =~= before_events.push(EventView::CharacterLoaded { client_addr: client, character: c }));
        assert(views(events@) =~= step.1);
        assert(self@ == step.0);
        events
    }

    /// Whether a packet about `object_id` from `client` is about another
    /// object than the client's own character.
    fn is_foreign(&self, client: Option<Endpoint>, object_id: u32) -> (r: bool)
        ensures
            r == foreign(self@, client, object_id),
    {
        match client {
            Some(a) => match self.object_of_client(a) {
                Some(my) => object_id != my,
                None => false,
            },
            None => false,
        }
    }

    /// Applies a status update.
    fn handle_status_update(&mut self, client: Option<Endpoint>, object_id: u32, attrs: &Vec<StatusUpdateAttribute>, now: u64) -> (events: Vec<CompanionEvent>)
        requires
            old(self).wf(),
        ensures
            final(self).wf(),
            final(self)@ == status_step(old(self)@, client, object_id, attrs@, now).0,
            views(events@) == status_step(old(self)@, client, object_id, attrs@, now).1,
    {
        let ghost t = self@;
        let mut events: Vec<CompanionEvent> = Vec::new();
        if self.is_foreign(client, object_id) {
            assert(views(events@) =~= Seq::<EventView>::empty());
            return events;
        }
        match self.find_character(object_id) {
            Some(i) => {
                apply_status(&mut self.characters[i], attrs, now);
                proof {
                    lemma_attrs_keep_identity(t.characters[i as int], attrs@);
                    lemma_first_index(t.characters, is_character(object_id), 0);
                    assert(views(self.characters@) =~= t.characters.update(i as int, self.characters@[i as int]@));
                    lemma_update_distinct(t.characters, character_key(), i as int, self.characters@[i as int]@);
                }
                events.push(CompanionEvent::VitalsChanged { client_addr: client, object_id, vitals: self.characters[i].vitals });
            },
            None => {},
        }
        assert(views(events@) =~= status_step(t, client, object_id, attrs@, now).1);
        events
    }

    /// Applies a movement.
    fn handle_movement(&mut self, client: Option<Endpoint>, mv: MoveToLocationPacket, now: u64) -> (events: Vec<CompanionEvent>)
        requires
            old(self).wf(),
        ensures
            final(self).wf(),
            final(self)@ == move_step(old(self)@, client, mv, now).0,
            views(events@) == move_step(old(self)@, client, mv, now).1,
    {
        let ghost t = self@;
        let mut events: Vec<CompanionEvent> = Vec::new();
        if self.is_foreign(client, mv.object_id) {
            assert(views(events@) =~= Seq::<EventView>::empty());
            return events;
        }
        match self.find_character(mv.object_id) {
            Some(i) => {
                let mut c = self.characters.remove(i);
                c.location.x = mv.target_x;
                c.location.y = mv.target_y;
                c.location.z = mv.target_z;
                c.last_updated_epoch_ms = now;
                let location = c.location;
                self.characters.insert(i, c);
                proof {
                    lemma_first_index(t.characters, is_character(mv.object_id), 0);
                    assert(views(self.characters@) =~= t.characters.update(i as int, c@));
                    lemma_update_distinct(t.characters, character_key(), i as int, c@);
                }
                events.push(CompanionEvent::LocationChanged { client_addr: client, object_id: mv.object_id, location });
            },
            None => {},
        }
        assert(views(events@) =~= move_step(t, client, mv, now).1);
        events
    }

    /// Stores a full inventory.
    fn handle_item_list(&mut self, client: Option<Endpoint>, items: Vec<InventoryItem>, now: u64) -> (events: Vec<CompanionEvent>)
        requires
            old(self).wf(),
        ensures
            final(self).wf(),
            final(self)@ == item_list_step(old(self)@, client, views(items@), now).0,
            views(events@) == item_list_step(old(self)@, client, views(items@), now).1,
    {
        let ghost t = self@;
        let mut events: Vec<CompanionEvent> = Vec::new();
        match self.resolve_client_object_id(client) {
            None => {},
            Some(o) => {
                match self.find_character(o) {
                    Some(i) => {
                        let held = &self.characters[i].inventory;
                        if (items.len() == 0 && held.len() > 0) || items_same(held, &items) {
                            assert(views(events@) =~= Seq::<EventView>::empty());
                            return events;
                        }
                        let copy = duplicate_all(&items);
                        let mut c = self.characters.remove(i);
                        c.inventory = copy;
                        c.last_updated_epoch_ms = now;
                        self.characters.insert(i, c);
                        proof {
                            lemma_first_index(t.characters, is_character(o), 0);
                            assert(views(self.characters@) =~= t.characters.update(i as int, c@));
                            lemma_update_distinct(t.characters, character_key(), i as int, c@);
                        }
                    },
                    None => {},
                }
                events.push(CompanionEvent::InventoryLoaded { client_addr: client, object_id: o, items });
            },
        }
        assert(views(events@) =~= item_list_step(t, client, views(items@), now).1);
        events
    }

    /// Merges changed items.
    fn handle_inventory_update(&mut self, client: Option<Endpoint>, items: Vec<InventoryItem>, now: u64) -> (events: Vec<CompanionEvent>)
        requires
            old(self).wf(),
        ensures
            final(self).wf(),
            final(self)@ == inventory_update_step(old(self)@, client, views(items@), now).0,
            views(events@) == inventory_update_step(old(self)@, client, views(items@), now).1,
    {
        let ghost t = self@;
        let mut events: Vec<CompanionEvent> = Vec::new();
        if items.len() == 0 {
            assert(views(events@) =~= Seq::<EventView>::empty());
            return events;
        }
        match self.resolve_client_object_id(client) {
            None => {},
            Some(o) => {
                match self.find_character(o) {
                    Some(i) => {
                        let mut c = self.characters.remove(i);
                        merge_into(&mut c.inventory, &items);
                        c.last_updated_epoch_ms = now;
                        self.characters.insert(i, c);
                        proof {
                            lemma_first_index(t.characters, is_character(o), 0);
                            assert(views(self.characters@) =~= t.characters.update(i as int, c@));
                            lemma_update_distinct(t.characters, character_key(), i as int, c@);
                        }
                    },
                    None => {},
                }
                events.push(CompanionEvent::InventoryLoaded { client_addr: client, object_id: o, items });
            },
        }
        assert(views(events@) =~= inventory_update_step(t, client, views(items@), now).1);
        events
    }

    /// Stores warehouse contents.
    fn handle_warehouse_list(&mut self, client: Option<Endpoint>, wh: WarehouseListPacket, now: u64) -> (events: Vec<CompanionEvent>)
        requires
            old(self).wf(),
        ensures
            final(self).wf(),
            final(self)@ == warehouse_step(old(self)@, client, wh@, now).0,
            views(events@) == warehouse_step(old(self)@, client, wh@, now).1,
    {
        let ghost t = self@;
        let mut events: Vec<CompanionEvent> = Vec::new();
        let o = match self.resolve_client_object_id(client) {
            Some(o) => o,
            None => 0,
        };
        match self.find_character(o) {
            Some(i) => {
                let copy = duplicate_all(&wh.items);
                let mut c = self.characters.remove(i);
                c.warehouse = copy;
                c.last_updated_epoch_ms = now;
                self.characters.insert(i, c);
                proof {
                    lemma_first_index(t.characters, is_character(o), 0);
                    assert(views(self.characters@) =~= t.characters.update(i as int, c@));
                    lemma_update_distinct(t.characters, character_key(), i as int, c@);
                }
            },
            None => {},
        }
        events.push(CompanionEvent::WarehouseLoaded {
            client_addr: client,
            object_id: o,
            wh_type: wh.wh_type,
            player_adena: wh.player_adena,
            items: wh.items,
        });
        assert(views(events@) =~= warehouse_step(t, client, wh@, now).1);
        events
    }

    /// Stores learned skills.
    fn handle_skill_list(&mut self, client: Option<Endpoint>, skills: Vec<SkillEntry>, now: u64) -> (events: Vec<CompanionEvent>)
        requires
            old(self).wf(),
        ensures
            final(self).wf(),
            final(self)@ == skill_step(old(self)@, client, skills@, now).0,
            views(events@) == skill_step(old(self)@, client, skills@, now).1,
    {
        let ghost t = self@;
        let mut events: Vec<CompanionEvent> = Vec::new();
        if skills.len() == 0 {
            assert(views(events@) =~= Seq::<EventView>::empty());
            return events;
        }
        match self.resolve_client_object_id(client) {
            None => {},
            Some(o) => {
                match self.find_character(o) {
                    Some(i) => {
                        if skills_same(&self.characters[i].skills, &skills) {
                            assert(views(events@) =~= Seq::<EventView>::empty());
                            return events;
                        }
                        let copy = copy_plain(&skills);
                        let mut c = self.characters.remove(i);
                        c.skills = copy;
                        c.last_updated_epoch_ms = now;
                        self.characters.insert(i, c);
                        proof {
                            lemma_first_index(t.characters, is_character(o), 0);
                            assert(views(self.characters@) =~= t.characters.update(i as int, c@));
                            lemma_update_distinct(t.characters, character_key(), i as int, c@);
                        }
                    },
                    None => {},
                }
                events.push(CompanionEvent::SkillsUpdated { client_addr: client, object_id: o, skills });
            },
        }
        assert(views(events@) =~= skill_step(t, client, skills@, now).1);
        events
    }

    /// Stores active effects.
    fn handle_abnormal_status(&mut self, client: Option<Endpoint>, buffs: Vec<BuffEffect>, now: u64) -> (events: Vec<CompanionEvent>)
        requires
            old(self).wf(),
        ensures
            final(self).wf(),
            final(self)@ == buff_step(old(self)@, client, buffs@, now).0,
            views(events@) == buff_step(old(self)@, client, buffs@, now).1,
    {
        let ghost t = self@;
        let mut events: Vec<CompanionEvent> = Vec::new();
        match self.resolve_client_object_id(client) {
            None => {},
            Some(o) => {
                match self.find_character(o) {
                    Some(i) => {
                        if buffs_same(&self.characters[i].buffs, &buffs) {
                            assert(views(events@) =~= Seq::<EventView>::empty());
                            return events;
                        }
                        let copy = copy_plain(&buffs);
                        let mut c = self.characters.remove(i);
                        c.buffs = copy;
                        c.last_updated_epoch_ms = now;
                        self.characters.insert(i, c);
                        proof {
                            lemma_first_index(t.characters, is_character(o), 0);
                            assert(views(self.characters@) =~= t.characters.update(i as int, c@));
                            lemma_update_distinct(t.characters, character_key(), i as int, c@);
                        }
                    },
                    None => {},
                }
                events.push(CompanionEvent::BuffsUpdated { client_addr: client, object_id: o, buffs });
            },
        }
        assert(views(events@) =~= buff_step(t, client, buffs@, now).1);
        events
    }

    /// Records a player's store.
    fn handle_private_store(&mut self, client: Option<Endpoint>, ps: PrivateStorePacket, now: u64) -> (events: Vec<CompanionEvent>)
        requires
            old(self).wf(),
        ensures
            final(self).wf(),
            final(self)@ == store_step(old(self)@, client, ps@, now).0,
            views(events@) == store_step(old(self)@, client, ps@, now).1,
    {
        let ghost t = self@;
        let seller_name = match self.find_character(ps.seller_object_id) {
            Some(i) => Some(self.characters[i].name.clone()),
            None => None,
        };
        let session = PrivateStoreSession {
            seller_object_id: ps.seller_object_id,
            seller_name,
            store_type: ps.store_type,
            store_title: ps.store_title,
            items: ps.items,
            last_seen_epoch_ms: now,
        };
        let stored = session.duplicate();
        let ghost stores = views(self.private_stores@);
        match self.find_store(ps.seller_object_id) {
            Some(i) => {
                self.private_stores.set(i, stored);
                proof {
                    lemma_first_index(stores, is_store(ps.seller_object_id), 0);
                    assert(views(self.private_stores@) =~= stores.update(i as int, session@));
                    lemma_update_distinct(stores, store_key(), i as int, session@);
                }
            },
            None => {
                self.private_stores.push(stored);
                proof {
                    lemma_first_index(stores, is_store(ps.seller_object_id), 0);
                    assert(views(self.private_stores@) =~= stores.push(session@));
                    lemma_push_distinct(stores, store_key(), session@);
                }
            },
        }
        let mut events: Vec<CompanionEvent> = Vec::new();
        events.push(CompanionEvent::PrivateStoreUpdated { client_addr: client, store: session });
        assert(views(events@) =~= store_step(t, client, ps@, now).1);
        events
    }

    /// Updates the tracker from a packet of a client (or of no known
    /// client) received at `now`, and returns what changed, in order.
    pub fn handle_packet_with_client(&mut self, client_addr: Option<Endpoint>, packet: L2Packet, now: u64) -> (events: Vec<CompanionEvent>)
        requires
            old(self).wf(),
        ensures
            final(self).wf(),
            final(self)@ == packet_step(old(self)@, client_addr, packet@, now).0,
            views(events@) == packet_step(old(self)@, client_addr, packet@, now).1,
    {
        let ghost t = self@;
        match packet {
            L2Packet::AuthLogin(auth) => self.handle_auth_login(client_addr, &auth, now),
            L2Packet::CharSelectInfo(info) => self.handle_char_select_info(client_addr, info, now),
            L2Packet::UserInfo(info) => self.handle_user_info(client_addr, &info, now),
            L2Packet::StatusUpdate(update) => self.handle_status_update(client_addr, update.object_id, &update.attributes, now),
            L2Packet::ItemList(il) => self.handle_item_list(client_addr, il.items, now),
            L2Packet::InventoryUpdate(iu) => self.handle_inventory_update(client_addr, iu.items, now),
            L2Packet::WarehouseList(wh) => self.handle_warehouse_list(client_addr, wh, now),
            L2Packet::SkillList(sl) => self.handle_skill_list(client_addr, sl.skills, now),
            L2Packet::AbnormalStatusUpdate(ab) => self.handle_abnormal_status(client_addr, ab.buffs, now),
            L2Packet::MagicEffectIcons(me) => self.handle_abnormal_status(client_addr, me.buffs, now),
            L2Packet::PrivateStore(ps) => self.handle_private_store(client_addr, ps, now),
            L2Packet::CommissionList(cl) => {
                self.commission_items = duplicate_all(&cl.items);
                let mut events: Vec<CompanionEvent> = Vec::new();
                events.push(CompanionEvent::CommissionMarketUpdated { items: cl.items });
                assert(views(events@) =~= packet_step(t, client_addr, packet@, now).1);
                events
            },
            L2Packet::WorldExchangeList(we) => {
                self.world_exchange_items = duplicate_all(&we.items);
                let mut events: Vec<CompanionEvent> = Vec::new();
                events.push(CompanionEvent::WorldExchangeUpdated { items: we.items });
                assert(views(events@) =~= packet_step(t, client_addr, packet@, now).1);
                events
            },
            L2Packet::EinhasadStore(es) => {
                self.einhasad_products = copy_plain(&es.products);
                let mut events: Vec<CompanionEvent> = Vec::new();
                events.push(CompanionEvent::EinhasadStoreUpdated { products: es.products });
                assert(views(events@) =~= packet_step(t, client_addr, packet@, now).1);
                events
            },
            L2Packet::MoveToLocation(mv) => self.handle_movement(client_addr, mv, now),
            L2Packet::Raw { opcode, payload } => {
                let mut events: Vec<CompanionEvent> = Vec::new();
                events.push(CompanionEvent::RawPacketReceived { client_addr, opcode, length: payload.len() });
                assert(views(events@) =~= packet_step(t, client_addr, packet@, now).1);
                events
            },
            L2Packet::SystemMessage(_) => {
                let events: Vec<CompanionEvent> = Vec::new();
                assert(views(events@) =~= packet_step(t, client_addr, packet@, now).1);
                events
            },
        }
    }

    /// Updates the tracker from a packet of no known client.
    pub fn handle_packet(&mut self, packet: L2Packet, now: u64) -> (events: Vec<CompanionEvent>)
        requires
            old(self).wf(),
        ensures
            final(self).wf(),
            final(self)@ == packet_step(old(self)@, None, packet@, now).0,
            views(events@) == packet_step(old(self)@, None, packet@, now).1,
    {
        self.handle_packet_with_client(None, packet, now)
    }

    /// Every tracked character, in the order first seen.
    pub fn get_characters(&self) -> (r: Vec<Character>)
        ensures
            views(r@) == self@.characters,
    {
        duplicate_all(&self.characters)
    }

    /// The character a query names: by object when one is given, else by
    /// name ignoring ASCII case, else none.
    pub fn find_character_query(&self, id: Option<u32>, name: Option<&str>) -> (r: Option<Character>)
        ensures
            match id {
                Some(o) => match character_of(self@, o) {
                    Some(c) => r is Some && r->0@ == c,
                    None => r is None,
                },
                None => match name {
                    Some(n) => match first_index(self@.characters, is_named(n@), 0) {
                        Some(i) => r is Some && r->0@ == self@.characters[i],
                        None => r is None,
                    },
                    None => r is None,
                },
            },
    {
        match id {
            Some(o) => self.get_character_by_id(o),
            None => match name {
                Some(n) => self.get_character_by_name(n),
                None => None,
            },
        }
    }

    /// The character with object `object_id`.
    pub fn get_character_by_id(&self, object_id: u32) -> (r: Option<Character>)
        ensures
            match r {
                Some(c) => character_of(self@, object_id) == Some(c@),
                None => character_of(self@, object_id) is None,
            },
    {
        match self.find_character(object_id) {
            Some(i) => Some(self.characters[i].duplicate()),
            None => None,
        }
    }

    /// The first tracked character named `name`, ignoring ASCII case.
    pub fn get_character_by_name(&self, name: &str) -> (r: Option<Character>)
        ensures
            match first_index(self@.characters, is_named(name@), 0) {
                Some(i) => r is Some && r->0@ == self@.characters[i],
                None => r is None,
            },
    {
        let ghost cs = self@.characters;
        let mut i: usize = 0;
        while i < self.characters.len()
            invariant
                cs == views(self.characters@),
                i <= self.characters@.len(),
                first_index(cs, is_named(name@), 0) == first_index(cs, is_named(name@), i as int),
            decreases self.characters@.len() - i,
        {
            if equals_ignore_ascii_case(self.characters[i].name.as_str(), name) {
                return Some(self.characters[i].duplicate());
            }
            i = i + 1;
        }
        None
    }

    /// The character a client plays.
    pub fn get_character_by_client(&self, client_addr: Endpoint) -> (r: Option<Character>)
        ensures
            match character_of_client(self@, client_addr) {
                Some(c) => r is Some && r->0@ == c,
                None => r is None,
            },
    {
        match self.object_of_client(client_addr) {
            Some(o) => self.get_character_by_id(o),
            None => None,
        }
    }

    /// The skills of the character with object `object_id`; none when untracked.
    pub fn get_character_skills(&self, object_id: u32) -> (r: Vec<SkillEntry>)
        ensures
            r@ == (match character_of(self@, object_id) {
                Some(c) => c.skills,
                None => Seq::<SkillEntry>::empty(),
            }),
    {
        match self.find_character(object_id) {
            Some(i) => copy_plain(&self.characters[i].skills),
            None => Vec::new(),
        }
    }

    /// The active effects of the character with object `object_id`; none when untracked.
    pub fn get_character_buffs(&self, object_id: u32) -> (r: Vec<BuffEffect>)
        ensures
            r@ == (match character_of(self@, object_id) {
                Some(c) => c.buffs,
                None => Seq::<BuffEffect>::empty(),
            }),
    {
        match self.find_character(object_id) {
            Some(i) => copy_plain(&self.characters[i].buffs),
            None => Vec::new(),
        }
    }

    /// The inventory of the character with object `object_id`; empty when untracked.
    pub fn get_character_inventory(&self, object_id: u32) -> (r: Vec<InventoryItem>)
        ensures
            views(r@) == (match character_of(self@, object_id) {
                Some(c) => c.inventory,
                None => Seq::<ItemInfoView>::empty(),
            }),
    {
        match self.find_character(object_id) {
            Some(i) => duplicate_all(&self.characters[i].inventory),
            None => {
                let r: Vec<InventoryItem> = Vec::new();
                assert(views(r@) =~= Seq::<ItemInfoView>::empty());
                r
            },
        }
    }

    /// The warehouse of the character with object `object_id`; empty when untracked.
    pub fn get_character_warehouse(&self, object_id: u32) -> (r: Vec<InventoryItem>)
        ensures
            views(r@) == (match character_of(self@, object_id) {
                Some(c) => c.warehouse,
                None => Seq::<ItemInfoView>::empty(),
            }),
    {
        match self.find_character(object_id) {
            Some(i) => duplicate_all(&self.characters[i].warehouse),
            None => {
                let r: Vec<InventoryItem> = Vec::new();
                assert(views(r@) =~= Seq::<ItemInfoView>::empty());
                r
            },
        }
    }

    /// All market listings.
    pub fn get_market_state(&self) -> (r: MarketState)
        ensures
            r@ == (MarketView {
                private_stores: self@.stores,
                commission_items: self@.commission,
                world_exchange_items: self@.exchange,
                einhasad_products: self@.einhasad,
            }),
    {
        MarketState {
            private_stores: duplicate_all(&self.private_stores),
            commission_items: duplicate_all(&self.commission_items),
            world_exchange_items: duplicate_all(&self.world_exchange_items),
            einhasad_products: copy_plain(&self.einhasad_products),
        }
    }

    /// Every player store seen, one per seller.
    pub fn get_private_stores(&self) -> (r: Vec<PrivateStoreSession>)
        ensures
            views(r@) == self@.stores,
    {
        duplicate_all(&self.private_stores)
    }

    /// The latest auction listings.
    pub fn get_commission_items(&self) -> (r: Vec<CommissionItem>)
        ensures
            views(r@) == self@.commission,
    {
        duplicate_all(&self.commission_items)
    }

    /// The latest world exchange listings.
    pub fn get_world_exchange_items(&self) -> (r: Vec<WorldExchangeItem>)
        ensures
            views(r@) == self@.exchange,
    {
        duplicate_all(&self.world_exchange_items)
    }

    /// The latest gold coin store offerings.
    pub fn get_einhasad_products(&self) -> (r: Vec<EinhasadProduct>)
        ensures
            r@ == self@.einhasad,
    {
        copy_plain(&self.einhasad_products)
    }

    /// Name of the first character seen on the account.
    fn first_on_account(&self, name: &str) -> (r: Option<String>)
        ensures
            text_opt(r) == (match first_index(self@.characters, plays_account(name@), 0) {
                Some(i) => Some(self@.characters[i].name),
                None => None,
            }),
    {
        let ghost cs = self@.characters;
        let mut i: usize = 0;
        while i < self.characters.len()
            invariant
                cs == views(self.characters@),
                i <= self.characters@.len(),
                first_index(cs, plays_account(name@), 0) == first_index(cs, plays_account(name@), i as int),
            decreases self.characters@.len() - i,
        {
            let hit = match &self.characters[i].account_name {
                Some(n) => same_text(n.as_str(), name),
                None => false,
            };
            if hit {
                return Some(self.characters[i].name.clone());
            }
            i = i + 1;
        }
        None
    }

    /// Name of the first character seen on the endpoint.
    fn first_on_endpoint(&self, text: &str) -> (r: Option<String>)
        ensures
            text_opt(r) == (match first_index(self@.characters, plays_on(text@), 0) {
                Some(i) => Some(self@.characters[i].name),
                None => None,
            }),
    {
        let ghost cs = self@.characters;
        let mut i: usize = 0;
        while i < self.characters.len()
            invariant
                cs == views(self.characters@),
                i <= self.characters@.len(),
                first_index(cs, plays_on(text@), 0) == first_index(cs, plays_on(text@), i as int),
            decreases self.characters@.len() - i,
        {
            let hit = match &self.characters[i].client_addr {
                Some(n) => same_text(n.as_str(), text),
                None => false,
            };
            if hit {
                return Some(self.characters[i].name.clone());
            }
            i = i + 1;
        }
        None
    }

    /// Name of the first character that fills one of the roster's slots.
    fn first_in_roster(&self, roster: &Vec<CharSelectSlot>) -> (r: Option<String>)
        ensures
            text_opt(r) == roster_match(views(roster@), self@.characters, 0),
    {
        let ghost cs = self@.characters;
        let ghost rv = views(roster@);
        let mut k: usize = 0;
        while k < roster.len()
            invariant
                cs == views(self.characters@),
                rv == views(roster@),
                k <= roster@.len(),
                roster_match(rv, cs, 0) == roster_match(rv, cs, k as int),
            decreases roster@.len() - k,
        {
            let slot = &roster[k];
            let mut i: usize = 0;
            while i < self.characters.len()
                invariant
                    cs == views(self.characters@),
                    rv == views(roster@),
                    k < roster@.len(),
                    i <= self.characters@.len(),
                    roster_match(rv, cs, 0) == roster_match(rv, cs, k as int),
                    rv[k as int] == slot@,
                    first_index(cs, fills_slot(rv[k as int]), 0) == first_index(cs, fills_slot(rv[k as int]), i as int),
                decreases self.characters@.len() - i,
            {
                let c = &self.characters[i];
                if same_text(c.name.as_str(), slot.name.as_str()) || c.object_id == slot.char_id {
                    return Some(c.name.clone());
                }
                i = i + 1;
            }
            k = k + 1;
        }
        None
    }

    /// Every account seen, in the order first seen; an account without an
    /// active character reports the one it can be matched with.
    pub fn get_accounts(&self) -> (r: Vec<AccountSession>)
        ensures
            r@.len() == self@.accounts.len(),
            forall|i: int| 0 <= i < r@.len() ==> (#[trigger] r@[i])@ == resolved_account(self@.accounts[i], self@.characters),
    {
        let mut r: Vec<AccountSession> = Vec::new();
        let mut j: usize = 0;
        while j < self.accounts.len()
            invariant
                j <= self.accounts@.len(),
                r@.len() == j,
                forall|i: int| 0 <= i < j ==> (#[trigger] r@[i])@ == resolved_account(self@.accounts[i], self@.characters),
            decreases self.accounts@.len() - j,
        {
            let a = &self.accounts[j];
            let mut acc = a.duplicate();
            assert(self@.accounts[j as int] == a@);
            if acc.active_character.is_none() {
                let mut active = self.first_on_account(a.account_name.as_str());
                if active.is_none() && a.client_addr.as_str().unicode_len() > 0 {
                    active = self.first_on_endpoint(a.client_addr.as_str());
                }
                if active.is_none() {
                    active = self.first_in_roster(&a.character_roster);
                }
                acc.active_character = active;
            }
            r.push(acc);
            j = j + 1;
        }
        r
    }

    /// The character a client plays, else the one seen last.
    pub fn resolve_client_object_id(&self, client: Option<Endpoint>) -> (r: Option<u32>)
        ensures
            r == resolve_object(self@, client),
    {
        match client {
            Some(a) => match self.object_of_client(a) {
                Some(o) => Some(o),
                None => self.active_player_id,
            },
            None => self.active_player_id,
        }
    }
}

} // verus!

verus! {

impl Default for CharacterTracker {
    /// Same as [`CharacterTracker::new`].
    fn default() -> (t: Self)
        ensures
            t@ == empty_tracker(),
            t.wf(),
    {
        Self::new()
    }
}

// ---------------------------------------------------------------- laws

/// Updating one character by another with the same object keeps every
/// object's position.
proof fn lemma_character_at_update(t: TrackerView, i: int, c: CharacterView, id: u32)
    requires
        0 <= i < t.characters.len(),
        c.object_id == t.characters[i].object_id,
    ensures
        first_index(t.characters.update(i, c), is_character(id), 0) == first_index(t.characters, is_character(id), 0),
{
    let s = t.characters;
    let u = s.update(i, c);
    lemma_first_index(s, is_character(id), 0);
    lemma_first_index(u, is_character(id), 0);
    assert forall|j: int| 0 <= j < s.len() implies is_character(id)(u[j]) == is_character(id)(s[j]) by {}
    match first_index(s, is_character(id), 0) {
        Some(k) => { lemma_first_index_at(u, is_character(id), k); },
        None => { lemma_first_index_none(u, is_character(id)); },
    }
}

/// A client that disconnects has no character and no account any more;
/// every other client keeps its character, and no character is lost.
pub proof fn lemma_disconnect_forgets_client(t: TrackerView, a: Endpoint, reason: Seq<char>)
    requires
        tracker_wf(t),
    ensures
        character_of_client(disconnect_step(t, a, reason).0, a) is None,
        link_of(disconnect_step(t, a, reason).0.client_accounts, a) is None,
        forall|b: Endpoint| b != a ==> character_of_client(disconnect_step(t, a, reason).0, b) == character_of_client(t, b),
        disconnect_step(t, a, reason).0.characters == t.characters,
{
    lemma_drop_link(t.client_objects, a);
    lemma_drop_link(t.client_accounts, a);
}

/// The login of a client with a non-empty account name associates the
/// client with that account.
pub proof fn lemma_login_names_client(t: TrackerView, a: Endpoint, name: Seq<char>, now: u64)
    requires
        tracker_wf(t),
        name.len() > 0,
    ensures
        link_of(auth_login_step(t, Some(a), name, now).0.client_accounts, a) == Some(name),
        tracker_wf(auth_login_step(t, Some(a), name, now).0),
{
    if link_of(t.client_accounts, a) != Some(name) {
        lemma_set_link(t.client_accounts, a, name);
        lemma_first_index(t.accounts, is_account(name), 0);
        match account_at(t, name) {
            Some(i) => {
                let accs = t.accounts;
                lemma_update_distinct(accs, account_key(), i, AccountView {
                    client_addr: endpoint_text(a),
                    last_seen_epoch_ms: now,
                    ..accs[i]
                });
            },
            None => {
                lemma_push_distinct(t.accounts, account_key(), AccountView {
                    account_name: name,
                    client_addr: endpoint_text(a),
                    character_roster: seq![],
                    active_character: None,
                    last_seen_epoch_ms: now,
                });
            },
        }
    }
}

/// A valid character announcement from a client makes the announced
/// character the client's, named as announced, under the account the client
/// is then associated with, and the last one seen.
pub proof fn lemma_user_info_binds_client(t: TrackerView, a: Endpoint, u: UserInfoView, now: u64)
    requires
        tracker_wf(t),
        user_info_valid(u),
    ensures
        ({
            let after = user_info_step(t, Some(a), u, now).0;
            &&& character_of_client(after, a) is Some
            &&& character_of_client(after, a)->0.object_id == u.object_id
            &&& character_of_client(after, a)->0.name == u.name
            &&& character_of_client(after, a)->0.account_name == link_of(after.client_accounts, a)
            &&& after.active == Some(u.object_id)
        }),
{
    let after = user_info_step(t, Some(a), u, now).0;
    lemma_set_link(t.client_objects, a, u.object_id);
    let fresh = u.session_id > 0 && link_of(t.client_accounts, a) is None;
    if fresh {
        lemma_set_link(t.client_accounts, a, session_account(u.session_id));
    }
    lemma_first_index(t.characters, is_character(u.object_id), 0);
    match character_at(t, u.object_id) {
        Some(i) => {
            lemma_character_at_update(t, i, after.characters[i], u.object_id);
        },
        None => {
            let s = t.characters;
            let c = after.characters[s.len() as int];
            assert(after.characters == s.push(c));
            assert forall|j: int| 0 <= j < s.len() implies !is_character(u.object_id)(after.characters[j]) by {
                assert(after.characters[j] == s[j]);
            }
            lemma_first_index_at(after.characters, is_character(u.object_id), s.len() as int);
        },
    }
}

/// A valid character announcement records what it announces: afterwards
/// the announced object is tracked with the announced name and position and
/// level, and each of current and maximum hit and mana points, and
/// experience and skill points, equal to the packet's when announced
/// non-zero, and otherwise as before for a character already tracked;
/// combat points stay as they were; the last event announces that
/// character.
pub proof fn lemma_user_info_records_fields(t: TrackerView, client: Option<Endpoint>, u: UserInfoView, now: u64)
    requires
        tracker_wf(t),
        user_info_valid(u),
    ensures
        ({
            let r = packet_step(t, client, PacketView::UserInfo(u), now);
            let k = character_at(r.0, u.object_id);
            &&& k is Some
            &&& r.1.len() >= 1
            &&& r.1.last() == EventView::CharacterLoaded { client_addr: client, character: r.0.characters[k->0] }
            &&& ({
                let c = r.0.characters[k->0];
                &&& c.object_id == u.object_id
                &&& c.name == u.name
                &&& c.level == u.level
                &&& c.location.x == u.x && c.location.y == u.y && c.location.z == u.z
                &&& c.location.heading == u.heading
                &&& (u.cur_hp > 0 ==> c.vitals.cur_hp == u.cur_hp)
                &&& (u.max_hp > 0 ==> c.vitals.max_hp == u.max_hp)
                &&& (u.cur_mp > 0 ==> c.vitals.cur_mp == u.cur_mp)
                &&& (u.max_mp > 0 ==> c.vitals.max_mp == u.max_mp)
                &&& (u.exp > 0 ==> c.exp == u.exp)
                &&& (u.sp > 0 ==> c.sp == u.sp)
                &&& c.last_updated_epoch_ms == now
                &&& (character_at(t, u.object_id) matches Some(i) ==> {
                    let b = t.characters[i];
                    &&& (u.cur_hp == 0 ==> c.vitals.cur_hp == b.vitals.cur_hp)
                    &&& (u.max_hp == 0 ==> c.vitals.max_hp == b.vitals.max_hp)
                    &&& (u.cur_mp == 0 ==> c.vitals.cur_mp == b.vitals.cur_mp)
                    &&& (u.max_mp == 0 ==> c.vitals.max_mp == b.vitals.max_mp)
                    &&& c.vitals.cur_cp == b.vitals.cur_cp
                    &&& c.vitals.max_cp == b.vitals.max_cp
                })
            })
        }),
{
    let after = packet_step(t, client, PacketView::UserInfo(u), now).0;
    lemma_first_index(t.characters, is_character(u.object_id), 0);
    match character_at(t, u.object_id) {
        Some(i) => {
            lemma_character_at_update(t, i, after.characters[i], u.object_id);
        },
        None => {
            let s = t.characters;
            let c = after.characters[s.len() as int];
            assert(after.characters == s.push(c));
            assert forall|j: int| 0 <= j < s.len() implies !is_character(u.object_id)(after.characters[j]) by {
                assert(after.characters[j] == s[j]);
            }
            lemma_first_index_at(after.characters, is_character(u.object_id), s.len() as int);
        },
    }
}

/// A login followed by the client's character announcement records the
/// character under the account that logged in.
pub proof fn lemma_login_then_enter_world(t: TrackerView, a: Endpoint, name: Seq<char>, u: UserInfoView, t1: u64, t2: u64)
    requires
        tracker_wf(t),
        name.len() > 0,
        user_info_valid(u),
    ensures
        ({
            let after = user_info_step(auth_login_step(t, Some(a), name, t1).0, Some(a), u, t2).0;
            &&& character_of_client(after, a) is Some
            &&& character_of_client(after, a)->0.account_name == Some(name)
            &&& character_of_client(after, a)->0.name == u.name
        }),
{
    let mid = auth_login_step(t, Some(a), name, t1).0;
    lemma_login_names_client(t, a, name, t1);
    lemma_user_info_binds_client(mid, a, u, t2);
}

/// A status update about another object than the client's own character
/// changes nothing and announces nothing.
pub proof fn lemma_foreign_status_ignored(t: TrackerView, a: Endpoint, object_id: u32, attrs: Seq<StatusUpdateAttribute>, now: u64)
    requires
        foreign(t, Some(a), object_id),
    ensures
        status_step(t, Some(a), object_id, attrs, now) == (t, Seq::<EventView>::empty()),
{
}

/// Receiving the same full inventory again, for a tracked character,
/// changes nothing and announces nothing.
pub proof fn lemma_item_list_repeat_silent(t: TrackerView, client: Option<Endpoint>, items: Seq<ItemInfoView>, t1: u64, t2: u64)
    requires
        tracker_wf(t),
        resolve_object(t, client) is Some,
        character_at(t, resolve_object(t, client)->0) is Some,
    ensures
        ({
            let once = item_list_step(t, client, items, t1).0;
            item_list_step(once, client, items, t2) == (once, Seq::<EventView>::empty())
        }),
{
    let o = resolve_object(t, client)->0;
    let i = character_at(t, o)->0;
    lemma_first_index(t.characters, is_character(o), 0);
    let once = item_list_step(t, client, items, t1).0;
    if once != t {
        let c = t.characters[i];
        lemma_character_at_update(t, i, CharacterView { inventory: items, last_updated_epoch_ms: t1, ..c }, o);
    }
}

/// Handling an inventory list is idempotent: for a tracked character whose
/// inventory already holds the list's items (or a loaded inventory and an
/// empty list), the packet changes nothing, its time stamp included, and
/// announces nothing; so handling the same list twice has the effect of
/// handling it once.
pub proof fn lemma_item_list_packet_idempotent(t: TrackerView, client: Option<Endpoint>, l: ItemListView, t1: u64, t2: u64)
    requires
        tracker_wf(t),
        resolve_object(t, client) is Some,
        character_at(t, resolve_object(t, client)->0) is Some,
    ensures
        ({
            let c = t.characters[character_at(t, resolve_object(t, client)->0)->0];
            (c.inventory == l.items || (l.items.len() == 0 && c.inventory.len() > 0))
                ==> packet_step(t, client, PacketView::ItemList(l), t1) == (t, Seq::<EventView>::empty())
        }),
        ({
            let once = packet_step(t, client, PacketView::ItemList(l), t1).0;
            packet_step(once, client, PacketView::ItemList(l), t2) == (once, Seq::<EventView>::empty())
        }),
{
    lemma_item_list_repeat_silent(t, client, l.items, t1, t2);
}

/// A status attribute writes exactly the field its id names, and nothing
/// else: 1 the level, 2 the experience, 3 the physical attack, 9 and 10
/// current and maximum hit points, 11 and 12 current and maximum mana, 13
/// the skill points, 33 and 34 current and maximum combat points; any other
/// id changes nothing.
pub proof fn lemma_status_attribute_writes_its_field(c: CharacterView, a: StatusUpdateAttribute)
    ensures
        ({
            let r = apply_attr(c, a);
            let v = a.value;
            let id = a.attr_id;
            &&& r.level == (if id == 1 { v } else { c.level })
            &&& r.exp == (if id == 2 { v as u64 } else { c.exp })
            &&& r.stats.p_atk == (if id == 3 { v } else { c.stats.p_atk })
            &&& r.vitals.cur_hp == (if id == 9 { v } else { c.vitals.cur_hp })
            &&& r.vitals.max_hp == (if id == 10 { v } else { c.vitals.max_hp })
            &&& r.vitals.cur_mp == (if id == 11 { v } else { c.vitals.cur_mp })
            &&& r.vitals.max_mp == (if id == 12 { v } else { c.vitals.max_mp })
            &&& r.sp == (if id == 13 { v } else { c.sp })
            &&& r.vitals.cur_cp == (if id == 33 { v } else { c.vitals.cur_cp })
            &&& r.vitals.max_cp == (if id == 34 { v } else { c.vitals.max_cp })
            &&& r.stats == (Stats { p_atk: r.stats.p_atk, ..c.stats })
            &&& r == (CharacterView { level: r.level, exp: r.exp, sp: r.sp, vitals: r.vitals, stats: r.stats, ..c })
        }),
{
}

/// A status update with one attribute about a tracked character that is not
/// another client's writes the attribute's field of that character (with
/// id 10 the maximum hit points, every other vital kept), and announces the
/// character's resulting vitals.
pub proof fn lemma_status_update_packet_writes_vitals(
    t: TrackerView,
    client: Option<Endpoint>,
    object_id: u32,
    a: StatusUpdateAttribute,
    now: u64,
)
    requires
        tracker_wf(t),
        !foreign(t, client, object_id),
        character_at(t, object_id) is Some,
    ensures
        ({
            let i = character_at(t, object_id)->0;
            let p = PacketView::StatusUpdate(StatusUpdateView { object_id, attributes: seq![a] });
            let r = packet_step(t, client, p, now);
            let before = t.characters[i];
            let after = r.0.characters[i];
            let v = a.value;
            let id = a.attr_id;
            &&& character_at(r.0, object_id) == Some(i)
            &&& after.object_id == object_id
            &&& after.level == (if id == 1 { v } else { before.level })
            &&& after.vitals.cur_hp == (if id == 9 { v } else { before.vitals.cur_hp })
            &&& after.vitals.max_hp == (if id == 10 { v } else { before.vitals.max_hp })
            &&& after.vitals.cur_mp == (if id == 11 { v } else { before.vitals.cur_mp })
            &&& after.vitals.max_mp == (if id == 12 { v } else { before.vitals.max_mp })
            &&& after.vitals.cur_cp == (if id == 33 { v } else { before.vitals.cur_cp })
            &&& after.vitals.max_cp == (if id == 34 { v } else { before.vitals.max_cp })
            &&& after.last_updated_epoch_ms == now
            &&& r.1 == seq![EventView::VitalsChanged { client_addr: client, object_id, vitals: after.vitals }]
        }),
{
    let i = character_at(t, object_id)->0;
    let c = t.characters[i];
    lemma_first_index(t.characters, is_character(object_id), 0);
    assert(seq![a].drop_last() =~= Seq::<StatusUpdateAttribute>::empty());
    assert(seq![a].last() == a);
    assert(apply_attrs(c, Seq::<StatusUpdateAttribute>::empty()) == c);
    assert(apply_attrs(c, seq![a]) == apply_attr(c, a));
    lemma_status_attribute_writes_its_field(c, a);
    lemma_attrs_keep_identity(c, seq![a]);
    let nc = CharacterView { last_updated_epoch_ms: now, ..apply_attrs(c, seq![a]) };
    lemma_character_at_update(t, i, nc, object_id);
}

/// Receiving the same learned skills again, for a tracked character,
/// changes nothing and announces nothing.
pub proof fn lemma_skill_list_repeat_silent(t: TrackerView, client: Option<Endpoint>, skills: Seq<SkillEntry>, t1: u64, t2: u64)
    requires
        tracker_wf(t),
        resolve_object(t, client) is Some,
        character_at(t, resolve_object(t, client)->0) is Some,
    ensures
        ({
            let once = skill_step(t, client, skills, t1).0;
            skill_step(once, client, skills, t2) == (once, Seq::<EventView>::empty())
        }),
{
    let o = resolve_object(t, client)->0;
    let i = character_at(t, o)->0;
    lemma_first_index(t.characters, is_character(o), 0);
    let once = skill_step(t, client, skills, t1).0;
    if once != t {
        let c = t.characters[i];
        lemma_character_at_update(t, i, CharacterView { skills, last_updated_epoch_ms: t1, ..c }, o);
    }
}

/// Receiving the same active effects again, for a tracked character,
/// changes nothing and announces nothing.
pub proof fn lemma_buffs_repeat_silent(t: TrackerView, client: Option<Endpoint>, buffs: Seq<BuffEffect>, t1: u64, t2: u64)
    requires
        tracker_wf(t),
        resolve_object(t, client) is Some,
        character_at(t, resolve_object(t, client)->0) is Some,
    ensures
        ({
            let once = buff_step(t, client, buffs, t1).0;
            buff_step(once, client, buffs, t2) == (once, Seq::<EventView>::empty())
        }),
{
    let o = resolve_object(t, client)->0;
    let i = character_at(t, o)->0;
    lemma_first_index(t.characters, is_character(o), 0);
    let once = buff_step(t, client, buffs, t1).0;
    if once != t {
        let c = t.characters[i];
        lemma_character_at_update(t, i, CharacterView { buffs, last_updated_epoch_ms: t1, ..c }, o);
    }
}

/// An empty inventory list for a character whose inventory is loaded
/// changes nothing and announces nothing.
pub proof fn lemma_empty_item_list_keeps_inventory(t: TrackerView, client: Option<Endpoint>, now: u64)
    requires
        resolve_object(t, client) is Some,
        character_at(t, resolve_object(t, client)->0) is Some,
        t.characters[character_at(t, resolve_object(t, client)->0)->0].inventory.len() > 0,
    ensures
        item_list_step(t, client, Seq::<ItemInfoView>::empty(), now) == (t, Seq::<EventView>::empty()),
{
}

/// Repeating a login from the same client changes nothing the second time
/// and announces nothing.
pub proof fn lemma_repeated_login_silent(t: TrackerView, a: Endpoint, name: Seq<char>, t1: u64, t2: u64)
    requires
        tracker_wf(t),
        name.len() > 0,
    ensures
        ({
            let once = auth_login_step(t, Some(a), name, t1).0;
            auth_login_step(once, Some(a), name, t2) == (once, Seq::<EventView>::empty())
        }),
{
    lemma_login_names_client(t, a, name, t1);
}

/// A movement of another object than the client's own character changes
/// nothing and announces nothing.
pub proof fn lemma_foreign_movement_ignored(t: TrackerView, a: Endpoint, mv: MoveToLocationPacket, now: u64)
    requires
        foreign(t, Some(a), mv.object_id),
    ensures
        move_step(t, Some(a), mv, now) == (t, Seq::<EventView>::empty()),
{
}

} // verus!
