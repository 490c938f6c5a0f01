//! Payloads of the telemetry edition, their views, and the opcode dispatch.

use vstd::prelude::*;
use vstd::slice::slice_to_vec;
use crate::wire::{after, as_i32, clamp, fits, i32_or, le32, lemma_clamped_read, lemma_le32_reads_written, lemma_u32_pairs_bytes, u32_bytes, u32_or, u32_pairs_bytes, u64_or, u8_or, view_opt, WireReader};
use crate::text::{all_chars_in, all_in_class, read_utf16z, read_utf8z, utf16z_read, utf8z_read, CharClass, ReadError};
use crate::companion_protocol::opcode::{client_opcode_of, server_opcode_of, ClientOpcode, ServerOpcode};

verus! {

/// A client's login to the game server.
#[derive(Debug, Clone, PartialEq, Eq, Default)]
pub struct AuthLoginPacket {
    pub account_name: String,
    pub session_key1: u32,
    pub session_key2: u32,
}

/// Abstract value of an [`AuthLoginPacket`].
pub struct AuthLoginView {
    pub account_name: Seq<char>,
    pub session_key1: u32,
    pub session_key2: u32,
}

impl View for AuthLoginPacket {
    type V = AuthLoginView;

    open spec fn view(&self) -> AuthLoginView {
        AuthLoginView {
            account_name: self.account_name@,
            session_key1: self.session_key1,
            session_key2: self.session_key2,
        }
    }
}

/// One character of the selection roster; hit and mana points travel as
/// IEEE-754 doubles and are kept as their bit patterns.
#[derive(Debug, Clone, PartialEq, Eq, Default)]
pub struct CharSelectSlot {
    pub name: String,
    pub char_id: u32,
    pub level: u32,
    pub class_id: u32,
    pub cur_hp_bits: u64,
    pub max_hp_bits: u64,
    pub cur_mp_bits: u64,
    pub max_mp_bits: u64,
    pub sp: u32,
    pub exp: u64,
    pub karma: u32,
    pub pk_kills: u32,
    pub pvp_kills: u32,
}

/// Abstract value of a [`CharSelectSlot`].
pub struct CharSelectSlotView {
    pub name: Seq<char>,
    pub char_id: u32,
    pub level: u32,
    pub class_id: u32,
    pub cur_hp_bits: u64,
    pub max_hp_bits: u64,
    pub cur_mp_bits: u64,
    pub max_mp_bits: u64,
    pub sp: u32,
    pub exp: u64,
    pub karma: u32,
    pub pk_kills: u32,
    pub pvp_kills: u32,
}

impl View for CharSelectSlot {
    type V = CharSelectSlotView;

    open spec fn view(&self) -> CharSelectSlotView {
        CharSelectSlotView {
            name: self.name@,
            char_id: self.char_id,
            level: self.level,
            class_id: self.class_id,
            cur_hp_bits: self.cur_hp_bits,
            max_hp_bits: self.max_hp_bits,
            cur_mp_bits: self.cur_mp_bits,
            max_mp_bits: self.max_mp_bits,
            sp: self.sp,
            exp: self.exp,
            karma: self.karma,
            pk_kills: self.pk_kills,
            pvp_kills: self.pvp_kills,
        }
    }
}

/// The character selection roster.
#[derive(Debug, Clone, PartialEq, Eq, Default)]
pub struct CharSelectInfoPacket {
    pub account_name: String,
    pub character_slots: Vec<CharSelectSlot>,
}

/// Abstract value of a [`CharSelectInfoPacket`].
pub struct CharSelectInfoView {
    pub account_name: Seq<char>,
    pub character_slots: Seq<CharSelectSlotView>,
}

impl View for CharSelectInfoPacket {
    type V = CharSelectInfoView;

    open spec fn view(&self) -> CharSelectInfoView {
        CharSelectInfoView {
            account_name: self.account_name@,
            character_slots: self.character_slots@.map_values(|x: CharSelectSlot| x@),
        }
    }
}

/// The player's own character.
#[derive(Debug, Clone, PartialEq, Eq, Default)]
pub struct UserInfoPacket {
    pub object_id: u32,
    pub name: String,
    pub title: String,
    pub class_id: u32,
    pub level: u32,
    pub exp: u64,
    pub x: i32,
    pub y: i32,
    pub z: i32,
    pub heading: i32,
    pub cur_hp: u32,
    pub max_hp: u32,
    pub cur_mp: u32,
    pub max_mp: u32,
    pub cur_cp: u32,
    pub max_cp: u32,
    pub sp: u32,
    pub cur_load: u32,
    pub max_load: u32,
    pub p_atk: u32,
    pub p_def: u32,
    pub m_atk: u32,
    pub m_def: u32,
    pub p_atk_spd: u32,
    pub m_atk_spd: u32,
    pub karma: u32,
    pub pk_kills: u32,
    pub pvp_kills: u32,
}

/// The fields of a [`UserInfoPacket`] that its payload sets; the others are
/// zero and the title is empty.
pub struct UserInfoView {
    pub object_id: u32,
    pub name: Seq<char>,
    pub class_id: u32,
    pub level: u32,
    pub exp: u64,
    pub x: i32,
    pub y: i32,
    pub z: i32,
    pub heading: i32,
}

/// Whether a user info value has the given parsed fields and nothing else.
pub open spec fn user_info_is(u: UserInfoPacket, v: UserInfoView) -> bool {
    &&& u.object_id == v.object_id
    &&& u.name@ == v.name
    &&& u.title@.len() == 0
    &&& u.class_id == v.class_id
    &&& u.level == v.level
    &&& u.exp == v.exp
    &&& u.x == v.x
    &&& u.y == v.y
    &&& u.z == v.z
    &&& u.heading == v.heading
    &&& u.cur_hp == 0 && u.max_hp == 0 && u.cur_mp == 0 && u.max_mp == 0
    &&& u.cur_cp == 0 && u.max_cp == 0 && u.sp == 0 && u.cur_load == 0 && u.max_load == 0
    &&& u.p_atk == 0 && u.p_def == 0 && u.m_atk == 0 && u.m_def == 0
    &&& u.p_atk_spd == 0 && u.m_atk_spd == 0 && u.karma == 0 && u.pk_kills == 0 && u.pvp_kills == 0
}

/// One attribute of a status update.
#[derive(Debug, Clone, Copy, PartialEq, Eq)]
pub struct StatusUpdateAttribute {
    pub attr_id: u32,
    pub value: u32,
}

/// Changed attributes of one object.
#[derive(Debug, Clone, PartialEq, Eq, Default)]
pub struct StatusUpdatePacket {
    pub object_id: u32,
    pub attributes: Vec<StatusUpdateAttribute>,
}

/// Abstract value of a [`StatusUpdatePacket`].
pub struct StatusUpdateView {
    pub object_id: u32,
    pub attributes: Seq<StatusUpdateAttribute>,
}

impl View for StatusUpdatePacket {
    type V = StatusUpdateView;

    open spec fn view(&self) -> StatusUpdateView {
        StatusUpdateView { object_id: self.object_id, attributes: self.attributes@ }
    }
}

/// One inventory item.
#[derive(Debug, Clone, Copy, PartialEq, Eq, Default)]
pub struct ItemInfo {
    pub object_id: u32,
    pub item_id: u32,
    pub count: u64,
    pub item_type: u16,
    pub equipped: bool,
    pub enchant_level: u16,
    pub custom_type1: u16,
    pub is_augmented: bool,
}

/// The player's inventory.
#[derive(Debug, Clone, PartialEq, Eq, Default)]
pub struct ItemListPacket {
    pub show_window: bool,
    pub items: Vec<ItemInfo>,
}

/// Movement of an object toward a target.
#[derive(Debug, Clone, Copy, PartialEq, Eq, Default)]
pub struct MoveToLocationPacket {
    pub object_id: u32,
    pub target_x: i32,
    pub target_y: i32,
    pub target_z: i32,
    pub origin_x: i32,
    pub origin_y: i32,
    pub origin_z: i32,
}

/// A system message identifier.
#[derive(Debug, Clone, Copy, PartialEq, Eq, Default)]
pub struct SystemMessagePacket {
    pub message_id: u32,
}

/// A parsed packet, or the raw payload when it is not understood.
#[derive(Debug, Clone, PartialEq, Eq)]
pub enum L2Packet {
    AuthLogin(AuthLoginPacket),
    CharSelectInfo(CharSelectInfoPacket),
    UserInfo(UserInfoPacket),
    StatusUpdate(StatusUpdatePacket),
    ItemList(ItemListPacket),
    MoveToLocation(MoveToLocationPacket),
    SystemMessage(SystemMessagePacket),
    Raw { opcode: u8, payload: Vec<u8> },
}

// ---------------------------------------------------------------- specs

/// A login: a UTF-16 name kept when it is non-empty printable ASCII, else
/// an 8-bit name read from where the first attempt stopped (which must
/// succeed); then two session keys.
pub open spec fn auth_login_at(s: Seq<u8>) -> Option<AuthLoginView> {
    let a = utf16z_read(s, 0, false);
    let nm = if a.0 is Ok && a.0->Ok_0.len() > 0 && all_in_class(a.0->Ok_0, CharClass::Printable) {
        a
    } else {
        utf8z_read(s, a.1, false)
    };
    match nm.0 {
        Ok(t) => Some(
            AuthLoginView {
                account_name: t,
                session_key1: u32_or(s, nm.1, 0) as u32,
                session_key2: u32_or(s, after(s, nm.1, 4), 0) as u32,
            },
        ),
        Err(_) => None,
    }
}

/// The roster slot whose name ends at `p1`, and where its fields end.
pub open spec fn slot_at(s: Seq<u8>, name: Seq<char>, p1: int) -> (CharSelectSlotView, int) {
    let login = utf16z_read(s, after(s, p1, 4), false);
    let t = login.1;
    let hp = u64_or(s, t + 40, 0) as u64;
    let mp = u64_or(s, t + 48, 0) as u64;
    (
        CharSelectSlotView {
            name,
            char_id: u32_or(s, p1, 0) as u32,
            level: u32_or(s, t + 68, 0) as u32,
            class_id: u32_or(s, t + 20, 0) as u32,
            cur_hp_bits: hp,
            max_hp_bits: hp,
            cur_mp_bits: mp,
            max_mp_bits: mp,
            sp: u32_or(s, t + 56, 0) as u32,
            exp: u64_or(s, t + 60, 0) as u64,
            karma: u32_or(s, t + 72, 0) as u32,
            pk_kills: u32_or(s, t + 76, 0) as u32,
            pvp_kills: u32_or(s, t + 80, 0) as u32,
        },
        clamp(s, t + 84),
    )
}

/// The slots after `k` rounds starting at `q`, and where the parse stands:
/// a round whose name cannot be read adds nothing.
pub open spec fn slots_upto(s: Seq<u8>, q: int, k: nat) -> (Seq<CharSelectSlotView>, int)
    decreases k,
{
    if k == 0 {
        (seq![], q)
    } else {
        let prev = slots_upto(s, q, (k - 1) as nat);
        let nm = utf16z_read(s, prev.1, false);
        match nm.0 {
            Ok(name) => {
                let sl = slot_at(s, name, nm.1);
                (prev.0.push(sl.0), sl.1)
            },
            Err(_) => (prev.0, nm.1),
        }
    }
}

/// The roster: a count, a slot limit and an active flag, then that many
/// rounds; the account name is left empty.
pub open spec fn char_select_info_at(s: Seq<u8>) -> Option<CharSelectInfoView> {
    if !fits(s, 0, 4) {
        None
    } else {
        Some(CharSelectInfoView { account_name: seq![], character_slots: slots_upto(s, clamp(s, 9), le32(s, 0) as nat).0 })
    }
}

/// The player's character: position, heading and object id are required,
/// then the name, two unused words, class, level and experience.
pub open spec fn user_info_at(s: Seq<u8>) -> Option<UserInfoView> {
    let nm = utf16z_read(s, 20, false);
    let e = nm.1;
    if !fits(s, 0, 20) || nm.0 is Err {
        None
    } else {
        Some(
            UserInfoView {
                object_id: le32(s, 16) as u32,
                name: nm.0->Ok_0,
                class_id: u32_or(s, e + 8, 0) as u32,
                level: u32_or(s, e + 12, 0) as u32,
                exp: u64_or(s, e + 16, 0) as u64,
                x: as_i32(le32(s, 0)) as i32,
                y: as_i32(le32(s, 4)) as i32,
                z: as_i32(le32(s, 8)) as i32,
                heading: as_i32(le32(s, 12)) as i32,
            },
        )
    }
}

/// A status update: object id, count, then that many attribute pairs.
pub open spec fn status_update_at(s: Seq<u8>) -> Option<StatusUpdateView> {
    if !fits(s, 0, 8) || !fits(s, 8, 8 * le32(s, 4)) {
        None
    } else {
        Some(
            StatusUpdateView {
                object_id: le32(s, 0) as u32,
                attributes: Seq::new(
                    le32(s, 4) as nat,
                    |i: int| StatusUpdateAttribute { attr_id: le32(s, 8 + 8 * i) as u32, value: le32(s, 12 + 8 * i) as u32 },
                ),
            },
        )
    }
}

/// A movement: object id and target are required, the origin defaults to
/// zeros.
pub open spec fn move_to_location_at(s: Seq<u8>) -> Option<MoveToLocationPacket> {
    if !fits(s, 0, 16) {
        None
    } else {
        Some(
            MoveToLocationPacket {
                object_id: le32(s, 0) as u32,
                target_x: as_i32(le32(s, 4)) as i32,
                target_y: as_i32(le32(s, 8)) as i32,
                target_z: as_i32(le32(s, 12)) as i32,
                origin_x: i32_or(s, 16, 0) as i32,
                origin_y: i32_or(s, 20, 0) as i32,
                origin_z: i32_or(s, 24, 0) as i32,
            },
        )
    }
}

/// Whether `p` is the raw form of the payload.
pub open spec fn is_raw(p: L2Packet, opcode: u8, s: Seq<u8>) -> bool {
    p matches L2Packet::Raw { opcode: o, payload } && o == opcode && payload@ == s
}

/// The packet a server payload parses to: user info, roster, status update
/// and movement by opcode name; everything else, or a failed parse, raw.
pub open spec fn server_packet_is(p: L2Packet, opcode: u8, s: Seq<u8>) -> bool {
    let name = server_opcode_of(opcode);
    if name == ServerOpcode::UserInfo && user_info_at(s) is Some {
        p matches L2Packet::UserInfo(u) && user_info_is(u, user_info_at(s)->0)
    } else if name == ServerOpcode::CharSelectInfo && char_select_info_at(s) is Some {
        p matches L2Packet::CharSelectInfo(c) && c@ == char_select_info_at(s)->0
    } else if name == ServerOpcode::StatusUpdate && status_update_at(s) is Some {
        p matches L2Packet::StatusUpdate(u) && u@ == status_update_at(s)->0
    } else if name == ServerOpcode::MoveToLocation && move_to_location_at(s) is Some {
        p == L2Packet::MoveToLocation(move_to_location_at(s)->0)
    } else {
        is_raw(p, opcode, s)
    }
}

/// The packet a client payload parses to: a login under the login opcode
/// name, else raw.
pub open spec fn client_packet_is(p: L2Packet, opcode: u8, s: Seq<u8>) -> bool {
    if client_opcode_of(opcode) == ClientOpcode::AuthLogin && auth_login_at(s) is Some {
        p matches L2Packet::AuthLogin(a) && a@ == auth_login_at(s)->0
    } else {
        is_raw(p, opcode, s)
    }
}


// ---------------------------------------------------------------- parsers

/// The raw form of a payload.
fn raw_packet(opcode: u8, payload: &[u8]) -> (r: L2Packet)
    ensures
        is_raw(r, opcode, payload@),
{
    L2Packet::Raw { opcode, payload: slice_to_vec(payload) }
}

/// Reads a roster slot after its name.
fn read_slot(r: &mut WireReader, name: String) -> (slot: CharSelectSlot)
    requires
        old(r).wf(),
    ensures
        final(r).wf(),
        final(r).data@ == old(r).data@,
        slot@ == slot_at(old(r).data@, name@, old(r).pos as int).0,
        final(r).pos == slot_at(old(r).data@, name@, old(r).pos as int).1,
{
    let ghost s = r.data@;
    let ghost p1 = r.pos as int;
    proof { lemma_clamped_read(s, p1, 4); }
    let char_id = r.u32_or(0);
    let _login_name = read_utf16z(r, false);
    let ghost t = r.pos as int;
    proof { lemma_clamped_read(s, t, 4); }
    let _session_id = r.u32_or(0);
    proof { lemma_clamped_read(s, t + 4, 4); }
    let _clan_id = r.u32_or(0);
    proof { lemma_clamped_read(s, t + 8, 4); }
    let _builder = r.u32_or(0);
    proof { lemma_clamped_read(s, t + 12, 4); }
    let _sex = r.u32_or(0);
    proof { lemma_clamped_read(s, t + 16, 4); }
    let _race = r.u32_or(0);
    proof { lemma_clamped_read(s, t + 20, 4); }
    let class_id = r.u32_or(0);
    proof { lemma_clamped_read(s, t + 24, 4); }
    let _active_flag = r.u32_or(0);
    proof { lemma_clamped_read(s, t + 28, 4); }
    let _x = r.i32_or(0);
    proof { lemma_clamped_read(s, t + 32, 4); }
    let _y = r.i32_or(0);
    proof { lemma_clamped_read(s, t + 36, 4); }
    let _z = r.i32_or(0);
    proof { lemma_clamped_read(s, t + 40, 8); }
    let cur_hp_bits = r.u64_or(0);
    proof { lemma_clamped_read(s, t + 48, 8); }
    let cur_mp_bits = r.u64_or(0);
    proof { lemma_clamped_read(s, t + 56, 4); }
    let sp = r.u32_or(0);
    proof { lemma_clamped_read(s, t + 60, 8); }
    let exp = r.u64_or(0);
    proof { lemma_clamped_read(s, t + 68, 4); }
    let level = r.u32_or(0);
    proof { lemma_clamped_read(s, t + 72, 4); }
    let karma = r.u32_or(0);
    proof { lemma_clamped_read(s, t + 76, 4); }
    let pk_kills = r.u32_or(0);
    proof { lemma_clamped_read(s, t + 80, 4); }
    let pvp_kills = r.u32_or(0);
    CharSelectSlot {
        name,
        char_id,
        level,
        class_id,
        cur_hp_bits,
        max_hp_bits: cur_hp_bits,
        cur_mp_bits,
        max_mp_bits: cur_mp_bits,
        sp,
        exp,
        karma,
        pk_kills,
        pvp_kills,
    }
}

impl L2Packet {
    /// Parses a decrypted server payload given its opcode.
    pub fn parse(opcode: u8, payload: &[u8]) -> (r: L2Packet)
        ensures
            server_packet_is(r, opcode, payload@),
    {
        match ServerOpcode::from_byte(opcode) {
            ServerOpcode::UserInfo => match Self::parse_user_info(payload) {
                Some(v) => L2Packet::UserInfo(v),
                None => raw_packet(opcode, payload),
            },
            ServerOpcode::CharSelectInfo => match Self::parse_char_select_info(payload) {
                Some(v) => L2Packet::CharSelectInfo(v),
                None => raw_packet(opcode, payload),
            },
            ServerOpcode::StatusUpdate => match Self::parse_status_update(payload) {
                Some(v) => L2Packet::StatusUpdate(v),
                None => raw_packet(opcode, payload),
            },
            ServerOpcode::MoveToLocation => match Self::parse_move_to_location(payload) {
                Some(v) => L2Packet::MoveToLocation(v),
                None => raw_packet(opcode, payload),
            },
            _ => raw_packet(opcode, payload),
        }
    }

    /// Parses a decrypted client payload given its opcode.
    pub fn parse_client(opcode: u8, payload: &[u8]) -> (r: L2Packet)
        ensures
            client_packet_is(r, opcode, payload@),
    {
        match ClientOpcode::from_byte(opcode) {
            ClientOpcode::AuthLogin => match Self::parse_auth_login(payload) {
                Some(v) => L2Packet::AuthLogin(v),
                None => raw_packet(opcode, payload),
            },
            _ => raw_packet(opcode, payload),
        }
    }

    /// Parses a login payload.
    pub(crate) fn parse_auth_login(payload: &[u8]) -> (res: Option<AuthLoginPacket>)
        ensures
            view_opt(res) == auth_login_at(payload@),
    {
        let mut r = WireReader::new(payload);
        let account_name = match read_utf16z(&mut r, false) {
            Ok(s) => {
                if s.as_str().unicode_len() > 0 && all_chars_in(&s, CharClass::Printable) {
                    s
                } else {
                    match read_utf8z(&mut r, false) {
                        Ok(t) => t,
                        Err(_) => { return None; },
                    }
                }
            },
            Err(_) => match read_utf8z(&mut r, false) {
                Ok(t) => t,
                Err(_) => { return None; },
            },
        };
        let session_key1 = r.u32_or(0);
        let session_key2 = r.u32_or(0);
        Some(AuthLoginPacket { account_name, session_key1, session_key2 })
    }

    /// Parses the character roster.
    pub(crate) fn parse_char_select_info(payload: &[u8]) -> (res: Option<CharSelectInfoPacket>)
        ensures
            view_opt(res) == char_select_info_at(payload@),
    {
        let ghost s = payload@;
        let mut r = WireReader::new(payload);
        let count = match r.read_u32() {
            Some(v) => v,
            None => { return None; },
        };
        proof { lemma_clamped_read(s, 4, 4); }
        let _max_slots = r.u32_or(0);
        proof { lemma_clamped_read(s, 8, 1); }
        let _active = r.u8_or(0);
        let mut character_slots: Vec<CharSelectSlot> = Vec::new();
        let mut i: u32 = 0;
        assert(character_slots@.map_values(|x: CharSelectSlot| x@) =~= Seq::<CharSelectSlotView>::empty());
        while i < count
            invariant
                r.wf(),
                r.data@ == s,
                count == le32(s, 0),
                i <= count,
                r.pos == slots_upto(s, clamp(s, 9), i as nat).1,
                character_slots@.map_values(|x: CharSelectSlot| x@) == slots_upto(s, clamp(s, 9), i as nat).0,
            decreases count - i,
        {
            match read_utf16z(&mut r, false) {
                Ok(name) => {
                    let ghost before = character_slots@;
                    let slot = read_slot(&mut r, name);
                    character_slots.push(slot);
                    assert(character_slots@.map_values(|x: CharSelectSlot| x@) =~= before.map_values(|x: CharSelectSlot| x@).push(slot@));
                },
                Err(_) => {},
            }
            i = i + 1;
        }
        Some(CharSelectInfoPacket { account_name: String::new(), character_slots })
    }

    /// Parses the player's character.
    pub(crate) fn parse_user_info(payload: &[u8]) -> (res: Option<UserInfoPacket>)
        ensures
            match res {
                Some(u) => user_info_at(payload@) is Some && user_info_is(u, user_info_at(payload@)->0),
                None => user_info_at(payload@) is None,
            },
    {
        let ghost s = payload@;
        let mut r = WireReader::new(payload);
        let x = match r.read_i32() {
            Some(v) => v,
            None => { return None; },
        };
        let y = match r.read_i32() {
            Some(v) => v,
            None => { return None; },
        };
        let z = match r.read_i32() {
            Some(v) => v,
            None => { return None; },
        };
        let heading = match r.read_i32() {
            Some(v) => v,
            None => { return None; },
        };
        let object_id = match r.read_u32() {
            Some(v) => v,
            None => { return None; },
        };
        let name = match read_utf16z(&mut r, false) {
            Ok(t) => t,
            Err(_) => { return None; },
        };
        let ghost e = r.pos as int;
        proof { lemma_clamped_read(s, e, 4); }
        let _race = r.u32_or(0);
        proof { lemma_clamped_read(s, e + 4, 4); }
        let _sex = r.u32_or(0);
        proof { lemma_clamped_read(s, e + 8, 4); }
        let class_id = r.u32_or(0);
        proof { lemma_clamped_read(s, e + 12, 4); }
        let level = r.u32_or(0);
        proof { lemma_clamped_read(s, e + 16, 8); }
        let exp = r.u64_or(0);
        Some(UserInfoPacket {
            object_id,
            name,
            title: String::new(),
            class_id,
            level,
            exp,
            x,
            y,
            z,
            heading,
            cur_hp: 0,
            max_hp: 0,
            cur_mp: 0,
            max_mp: 0,
            cur_cp: 0,
            max_cp: 0,
            sp: 0,
            cur_load: 0,
            max_load: 0,
            p_atk: 0,
            p_def: 0,
            m_atk: 0,
            m_def: 0,
            p_atk_spd: 0,
            m_atk_spd: 0,
            karma: 0,
            pk_kills: 0,
            pvp_kills: 0,
        })
    }

    /// Parses a status update.
    pub(crate) fn parse_status_update(payload: &[u8]) -> (res: Option<StatusUpdatePacket>)
        ensures
            view_opt(res) == status_update_at(payload@),
    {
        let ghost s = payload@;
        let mut r = WireReader::new(payload);
        let object_id = match r.read_u32() {
            Some(v) => v,
            None => { return None; },
        };
        let count = match r.read_u32() {
            Some(v) => v,
            None => { return None; },
        };
        let mut attributes: Vec<StatusUpdateAttribute> = Vec::new();
        let mut i: u32 = 0;
        while i < count
            invariant
                r.wf(),
                r.data@ == s,
                s == payload@,
                fits(s, 0, 8),
                count == le32(s, 4),
                i <= count,
                r.pos == 8 + 8 * i,
                attributes@ =~= Seq::new(
                    i as nat,
                    |j: int| StatusUpdateAttribute { attr_id: le32(s, 8 + 8 * j) as u32, value: le32(s, 12 + 8 * j) as u32 },
                ),
            decreases count - i,
        {
            let attr_id = match r.read_u32() {
                Some(v) => v,
                None => { return None; },
            };
            let value = match r.read_u32() {
                Some(v) => v,
                None => { return None; },
            };
            attributes.push(StatusUpdateAttribute { attr_id, value });
            i = i + 1;
        }
        Some(StatusUpdatePacket { object_id, attributes })
    }

    /// Parses a movement.
    pub(crate) fn parse_move_to_location(payload: &[u8]) -> (res: Option<MoveToLocationPacket>)
        ensures
            res == move_to_location_at(payload@),
    {
        let ghost s = payload@;
        let mut r = WireReader::new(payload);
        let object_id = match r.read_u32() {
            Some(v) => v,
            None => { return None; },
        };
        let target_x = match r.read_i32() {
            Some(v) => v,
            None => { return None; },
        };
        let target_y = match r.read_i32() {
            Some(v) => v,
            None => { return None; },
        };
        let target_z = match r.read_i32() {
            Some(v) => v,
            None => { return None; },
        };
        proof { lemma_clamped_read(s, 16, 4); }
        let origin_x = r.i32_or(0);
        proof { lemma_clamped_read(s, 20, 4); }
        let origin_y = r.i32_or(0);
        proof { lemma_clamped_read(s, 24, 4); }
        let origin_z = r.i32_or(0);
        Some(MoveToLocationPacket { object_id, target_x, target_y, target_z, origin_x, origin_y, origin_z })
    }
}


/// Reads a zero-terminated UTF-16LE string at the reader's position; a
/// string cut short by the end of the buffer ends there, and nothing at all
/// before the end is an error.
pub fn read_l2_string(r: &mut WireReader) -> (res: Result<String, ReadError>)
    requires
        old(r).wf(),
    ensures
        final(r).wf(),
        final(r).data@ == old(r).data@,
        ({
            let sp = utf16z_read(old(r).data@, old(r).pos as int, false);
            &&& final(r).pos == sp.1
            &&& match res {
                Ok(t) => sp.0 == Ok::<Seq<char>, ReadError>(t@),
                Err(e) => sp.0 == Err::<Seq<char>, ReadError>(e),
            }
        }),
{
    read_utf16z(r, false)
}

/// Reads a zero-terminated 8-bit string that must be UTF-8 at the reader's
/// position; a string cut short by the end of the buffer ends there, and
/// nothing at all before the end is an error.
pub fn read_ascii_string(r: &mut WireReader) -> (res: Result<String, ReadError>)
    requires
        old(r).wf(),
    ensures
        final(r).wf(),
        final(r).data@ == old(r).data@,
        ({
            let sp = utf8z_read(old(r).data@, old(r).pos as int, false);
            &&& final(r).pos == sp.1
            &&& match res {
                Ok(t) => sp.0 == Ok::<Seq<char>, ReadError>(t@),
                Err(e) => sp.0 == Err::<Seq<char>, ReadError>(e),
            }
        }),
{
    read_utf8z(r, false)
}

/// The (id, value) pairs of status attributes, in order.
pub open spec fn attribute_pairs(attrs: Seq<StatusUpdateAttribute>) -> Seq<(u32, u32)> {
    Seq::new(attrs.len(), |i: int| (attrs[i].attr_id, attrs[i].value))
}

/// A status update reads back what was written: an object id, a count and
/// that many (attribute id, value) pairs, each value little-endian, parse as
/// that object with those attributes in order, whatever follows.
pub proof fn lemma_status_update_roundtrip(object_id: u32, attrs: Seq<StatusUpdateAttribute>, rest: Seq<u8>)
    requires
        attrs.len() <= u32::MAX,
    ensures
        status_update_at(u32_bytes(object_id) + u32_bytes(attrs.len() as u32) + u32_pairs_bytes(attribute_pairs(attrs)) + rest)
            == Some(StatusUpdateView { object_id, attributes: attrs }),
{
    let pairs = attribute_pairs(attrs);
    let n = attrs.len();
    let s = u32_bytes(object_id) + u32_bytes(n as u32) + u32_pairs_bytes(pairs) + rest;
    lemma_u32_pairs_bytes(pairs);
    assert forall|j: int| 0 <= j < 4 implies s[0 + j] == #[trigger] u32_bytes(object_id)[j] by {}
    lemma_le32_reads_written(s, 0, object_id);
    assert forall|j: int| 0 <= j < 4 implies s[4 + j] == #[trigger] u32_bytes(n as u32)[j] by {}
    lemma_le32_reads_written(s, 4, n as u32);
    assert forall|i: int| 0 <= i < n implies le32(s, 8 + 8 * i) == attrs[i].attr_id && le32(s, 12 + 8 * i) == attrs[i].value by {
        assert forall|j: int| 0 <= j < 4 implies s[8 + 8 * i + j] == #[trigger] u32_bytes(attrs[i].attr_id)[j] by {
            assert(s[8 + 8 * i + j] == u32_pairs_bytes(pairs)[8 * i + j]);
        }
        lemma_le32_reads_written(s, 8 + 8 * i, attrs[i].attr_id);
        assert forall|j: int| 0 <= j < 4 implies s[12 + 8 * i + j] == #[trigger] u32_bytes(attrs[i].value)[j] by {
            assert(u32_pairs_bytes(pairs)[8 * i + j] == u32_bytes(pairs[i].0)[j]);
            assert(s[12 + 8 * i + j] == u32_pairs_bytes(pairs)[8 * i + 4 + j]);
        }
        lemma_le32_reads_written(s, 12 + 8 * i, attrs[i].value);
    }
    assert(status_update_at(s)->0.attributes =~= attrs);
}

} // verus!
