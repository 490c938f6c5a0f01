//! Account login, selected character and the character roster.

use vstd::prelude::*;
use crate::wire::{
    after, clamp, f64_bits_as_u32, f64_bits_to_u32, fits, i32_or, le32, lemma_clamped_read,
    u32_or, u64_or, view_opt, WireReader,
};
use crate::text::{
    all_chars_in, all_in_class, byte_len, hash_number, hash_number_string, read_utf16z,
    read_utf8z, text_or_empty, utf16z_read, utf8_len, utf8z_read, CharClass, ReadError,
};
use crate::sniffer_protocol::packet::{
    slot_views, AuthLoginPacket, AuthLoginView, CharSelectInfoPacket, CharSelectInfoView,
    CharSelectSlot, CharSelectSlotView, L2Packet, UserInfoPacket, UserInfoView,
};
use crate::text::ascii_alnum;
use crate::text::is_ascii_alnum;
use crate::wire::le32_at;

verus! {

/// The name read first in the standard login layout: a UTF-16 string, or an
/// 8-bit string read from where that attempt stopped; with its end.
pub open spec fn login_first_name(s: Seq<u8>) -> (Result<Seq<char>, ReadError>, int) {
    let a = utf16z_read(s, 0, true);
    match a.0 {
        Ok(t) => a,
        Err(_) => utf8z_read(s, a.1, true),
    }
}

/// The name read in the retail login layout, after the session key and the
/// token length: an 8-bit string, or failing that a UTF-16 string from where
/// that attempt stopped (empty if that fails too); with its end.
pub open spec fn login_retail_name(s: Seq<u8>) -> (Seq<char>, int) {
    let a = utf8z_read(s, clamp(s, 6), true);
    match a.0 {
        Ok(t) => (t, a.1),
        Err(_) => {
            let b = utf16z_read(s, a.1, true);
            (text_or_empty(b.0), b.1)
        },
    }
}

/// A login payload. The standard layout is a name of 2 to 32 bytes of
/// letters, digits, `_` or `-`, followed by two session keys. Otherwise the
/// retail layout is tried: session key, token length, name, session key;
/// a valid name of at most 32 bytes is taken, else, with a non-zero key and a
/// token length from 1 to 1024, the account is named `#<key>`.
pub open spec fn auth_login_at(s: Seq<u8>) -> Option<AuthLoginView> {
    let f = login_first_name(s);
    let r = login_retail_name(s);
    let k1 = u32_or(s, 0, 0);
    let tl = if fits(s, 0, 4) { crate::wire::u16_or(s, 4, 0) } else { 0 };
    let k2 = u32_or(s, r.1, 0);
    if f.0 is Ok && 2 <= utf8_len(f.0->Ok_0) <= 32 && all_in_class(f.0->Ok_0, CharClass::Account) {
        Some(
            AuthLoginView {
                account_name: f.0->Ok_0,
                session_key1: u32_or(s, f.1, 0) as u32,
                session_key2: u32_or(s, after(s, f.1, 4), 0) as u32,
            },
        )
    } else if r.0.len() > 0 && utf8_len(r.0) <= 32 && all_in_class(r.0, CharClass::Account) {
        Some(AuthLoginView { account_name: r.0, session_key1: k1 as u32, session_key2: k2 as u32 })
    } else if k1 > 0 && 0 < tl <= 1024 {
        Some(AuthLoginView { account_name: hash_number(k1 as nat), session_key1: k1 as u32, session_key2: k2 as u32 })
    } else {
        None
    }
}

impl L2Packet {
    /// Parses a login payload, trying the standard and then the retail layout.
    pub(crate) fn parse_auth_login(payload: &[u8]) -> (res: Option<AuthLoginPacket>)
        ensures
            view_opt(res) == auth_login_at(payload@),
    {
        let ghost s = payload@;
        let mut test_r = WireReader::new(payload);
        let first = match read_utf16z(&mut test_r, true) {
            Ok(t) => Ok(t),
            Err(_) => read_utf8z(&mut test_r, true),
        };
        if let Ok(name) = first {
            let n = byte_len(&name);
            if n >= 2 && n <= 32 && all_chars_in(&name, CharClass::Account) {
                let ghost e = test_r.pos as int;
                let session_key1 = test_r.u32_or(0);
                let session_key2 = test_r.u32_or(0);
                return Some(AuthLoginPacket { account_name: name, session_key1, session_key2 });
            }
        }
        let mut retail_r = WireReader::new(payload);
        let session_key1 = retail_r.u32_or(0);
        proof { lemma_clamped_read(s, 4, 2); }
        let token_len = retail_r.u16_or(0);
        proof { lemma_clamped_read(s, 6, 1); }
        let raw_name = match read_utf8z(&mut retail_r, true) {
            Ok(t) => t,
            Err(_) => match read_utf16z(&mut retail_r, true) {
                Ok(t) => t,
                Err(_) => String::new(),
            },
        };
        let session_key2 = retail_r.u32_or(0);
        let n = byte_len(&raw_name);
        if raw_name.as_str().unicode_len() > 0 && n <= 32 && all_chars_in(&raw_name, CharClass::Account) {
            return Some(AuthLoginPacket { account_name: raw_name, session_key1, session_key2 });
        }
        if session_key1 > 0 && token_len > 0 && token_len <= 1024 {
            let account_name = hash_number_string(session_key1 as u64);
            return Some(AuthLoginPacket { account_name, session_key1, session_key2 });
        }
        None
    }
}


/// The selected character payload: a name of 2 to 32 bytes of letters,
/// digits, `_`, `-` or spaces, a non-zero object id, a padding word, the
/// session id, four unused words, a class id of at most 300, an unused word,
/// the position, hit and mana points as doubles, 64-bit skill points (of
/// which the low 32 bits are kept), experience and a level from 1 to 130.
pub open spec fn char_selected_at(s: Seq<u8>) -> Option<UserInfoView> {
    let nm = utf16z_read(s, 0, true);
    let e = nm.1;
    let class_id = u32_or(s, e + 26, 0);
    let level = u32_or(s, e + 78, 0);
    let hp = f64_bits_to_u32(u64_or(s, e + 46, 0) as u64);
    let mp = f64_bits_to_u32(u64_or(s, e + 54, 0) as u64);
    if nm.0 is Err {
        None
    } else if !(2 <= utf8_len(nm.0->Ok_0) <= 32) || !all_in_class(nm.0->Ok_0, CharClass::HeroName) {
        None
    } else if !fits(s, e, 4) || le32(s, e) == 0 {
        None
    } else if class_id > 300 || level == 0 || level > 130 {
        None
    } else {
        Some(
            UserInfoView {
                object_id: le32(s, e) as u32,
                session_id: u32_or(s, e + 6, 0) as u32,
                name: nm.0->Ok_0,
                title: seq![],
                class_id: class_id as u32,
                level: level as u32,
                exp: u64_or(s, e + 70, 0) as u64,
                x: i32_or(s, e + 34, 0) as i32,
                y: i32_or(s, e + 38, 0) as i32,
                z: i32_or(s, e + 42, 0) as i32,
                heading: 0,
                cur_hp: hp,
                max_hp: hp,
                cur_mp: mp,
                max_mp: mp,
                cur_cp: 0,
                max_cp: 0,
                sp: (u64_or(s, e + 62, 0) as u64) as u32,
                cur_load: 0,
                max_load: 0,
                p_atk: 0,
                p_def: 0,
                m_atk: 0,
                m_def: 0,
                p_atk_spd: 0,
                m_atk_spd: 0,
                karma: 0,
                pk_kills: 0,
                pvp_kills: 0,
            },
        )
    }
}

impl L2Packet {
    /// Parses the selected character payload.
    pub(crate) fn parse_char_selected_retail(payload: &[u8]) -> (res: Option<UserInfoPacket>)
        ensures
            view_opt(res) == char_selected_at(payload@),
    {
        let ghost s = payload@;
        let mut r = WireReader::new(payload);
        let name = match read_utf16z(&mut r, true) {
            Ok(t) => t,
            Err(_) => { return None; },
        };
        let n = byte_len(&name);
        if n < 2 || n > 32 || !all_chars_in(&name, CharClass::HeroName) {
            return None;
        }
        let ghost e = r.pos as int;
        let object_id = match r.read_u32() {
            Some(v) => v,
            None => { return None; },
        };
        if object_id == 0 {
            return None;
        }
        proof { lemma_clamped_read(s, e + 4, 2); }
        let _padding = r.u16_or(0);
        proof { lemma_clamped_read(s, e + 6, 4); }
        let session_id = r.u32_or(0);
        proof { lemma_clamped_read(s, e + 10, 4); }
        let _clan_id = r.u32_or(0);
        proof { lemma_clamped_read(s, e + 14, 4); }
        let _builder = r.u32_or(0);
        proof { lemma_clamped_read(s, e + 18, 4); }
        let _sex = r.u32_or(0);
        proof { lemma_clamped_read(s, e + 22, 4); }
        let _race = r.u32_or(0);
        proof { lemma_clamped_read(s, e + 26, 4); }
        let class_id = r.u32_or(0);
        if class_id > 300 {
            return None;
        }
        proof { lemma_clamped_read(s, e + 30, 4); }
        let _active = r.u32_or(0);
        proof { lemma_clamped_read(s, e + 34, 4); }
        let x = r.i32_or(0);
        proof { lemma_clamped_read(s, e + 38, 4); }
        let y = r.i32_or(0);
        proof { lemma_clamped_read(s, e + 42, 4); }
        let z = r.i32_or(0);
        proof { lemma_clamped_read(s, e + 46, 8); }
        let cur_hp = f64_bits_as_u32(r.u64_or(0));
        proof { lemma_clamped_read(s, e + 54, 8); }
        let cur_mp = f64_bits_as_u32(r.u64_or(0));
        proof { lemma_clamped_read(s, e + 62, 8); }
        let sp = r.u64_or(0) as u32;
        proof { lemma_clamped_read(s, e + 70, 8); }
        let exp = r.u64_or(0);
        proof { lemma_clamped_read(s, e + 78, 4); }
        let level = r.u32_or(0);
        if level == 0 || level > 130 {
            return None;
        }
        Some(UserInfoPacket {
            object_id,
            session_id,
            name,
            title: String::new(),
            class_id,
            level,
            exp,
            x,
            y,
            z,
            heading: 0,
            cur_hp,
            max_hp: cur_hp,
            cur_mp,
            max_mp: cur_mp,
            cur_cp: 0,
            max_cp: 0,
            sp,
            cur_load: 0,
            max_load: 0,
            p_atk: 0,
            p_def: 0,
            m_atk: 0,
            m_def: 0,
            p_atk_spd: 0,
            m_atk_spd: 0,
            karma: 0,
            pk_kills: 0,
            pvp_kills: 0,
        })
    }
}


// ---------------------------------------------------------------- roster

/// The first value between 1.5e9 and 2.1e9 (a plausible login time) among
/// the 32-bit words starting at `j` and ending by `hi`, or 0.
pub open spec fn first_timestamp(s: Seq<u8>, j: int, hi: int) -> u32
    decreases hi - j,
{
    if j < 0 || j + 4 > hi || hi > s.len() {
        0
    } else if 1_500_000_000 <= le32(s, j) <= 2_100_000_000 {
        le32(s, j) as u32
    } else {
        first_timestamp(s, j + 1, hi)
    }
}

/// The last login time found in the 600 bytes after a roster slot's fixed
/// fields, which end at `cur`.
pub open spec fn last_access_after(s: Seq<u8>, cur: int) -> u32 {
    if 0 <= cur < s.len() {
        first_timestamp(s, cur, if cur + 600 < s.len() { cur + 600 } else { s.len() as int })
    } else {
        0
    }
}

/// Whether a roster slot plausibly starts at `cp`: an ASCII letter or digit
/// as the first UTF-16 unit, a name of at least 2 bytes of letters, digits or
/// `_`, an id, then the account's name or another such alphanumeric name.
pub open spec fn slot_candidate(s: Seq<u8>, cp: int, account: Seq<char>) -> bool {
    let a = utf16z_read(s, cp, true);
    let b = utf16z_read(s, after(s, a.1, 4), true);
    &&& 0 <= cp
    &&& cp + 4 < s.len()
    &&& s[cp + 1] == 0
    &&& ascii_alnum(s[cp] as char)
    &&& a.0 is Ok
    &&& utf8_len(a.0->Ok_0) >= 2
    &&& all_in_class(a.0->Ok_0, CharClass::Handle)
    &&& b.0 is Ok
    &&& (b.0->Ok_0 == account || (utf8_len(b.0->Ok_0) >= 2 && all_in_class(b.0->Ok_0, CharClass::Alnum)))
}

/// The first candidate slot start at `pos + off` for `off` below `lim`.
pub open spec fn find_slot(s: Seq<u8>, pos: int, off: int, lim: int, account: Seq<char>) -> Option<int>
    decreases lim - off,
{
    if off >= lim {
        None
    } else if slot_candidate(s, pos + off, account) {
        Some(pos + off)
    } else {
        find_slot(s, pos, off + 1, lim, account)
    }
}

/// Where the search for the next slot ends: 30 bytes before the end.
pub open spec fn slot_search_limit(s: Seq<u8>, pos: int) -> int {
    if s.len() >= pos + 30 { s.len() - pos - 30 } else { 0 }
}

/// A roster slot whose name has been read and ends at `p1`: the id, the
/// title, the session id and the fixed fields; with where the fixed fields
/// end and the session id.
pub open spec fn slot_from(s: Seq<u8>, name: Seq<char>, p1: int) -> (CharSelectSlotView, int, u32) {
    let ti = utf16z_read(s, after(s, p1, 4), true);
    let t = ti.1;
    let cur = clamp(s, t + 96);
    let hp = u64_or(s, t + 40, 0) as u64;
    let mp = u64_or(s, t + 48, 0) as u64;
    (
        CharSelectSlotView {
            name: name,
            title: text_or_empty(ti.0),
            char_id: u32_or(s, p1, 0) as u32,
            level: u32_or(s, t + 80, 0) as u32,
            class_id: u32_or(s, t + 20, 0) as u32,
            cur_hp_bits: hp,
            max_hp_bits: hp,
            cur_mp_bits: mp,
            max_mp_bits: mp,
            sp: u64_or(s, t + 56, 0) as u64,
            exp: u64_or(s, t + 64, 0) as u64,
            exp_fraction_bits: u64_or(s, t + 72, 0) as u64,
            reputation: i32_or(s, t + 84, 0) as i32,
            pk_kills: u32_or(s, t + 88, 0) as u32,
            pvp_kills: u32_or(s, t + 92, 0) as u32,
            vitality: 100,
            last_access: last_access_after(s, cur),
        },
        cur,
        u32_or(s, t, 0) as u32,
    )
}

/// The roster parse so far: read position, slots, account name and whether
/// the parse has stopped.
pub struct RosterState {
    pub pos: int,
    pub slots: Seq<CharSelectSlotView>,
    pub account: Seq<char>,
    pub done: bool,
}

/// One round of the roster parse: read a name (an error skips the round, an
/// empty name stops), read the slot, name the account after the first
/// non-zero session id, and, unless it is the last round, search for where
/// the next slot starts (stopping when there is none).
pub open spec fn roster_step(s: Seq<u8>, count: int, i: int, st: RosterState) -> RosterState {
    let nm = utf16z_read(s, st.pos, true);
    if nm.0 is Err {
        RosterState { pos: nm.1, slots: st.slots, account: st.account, done: false }
    } else if nm.0->Ok_0.len() == 0 {
        RosterState { pos: nm.1, slots: st.slots, account: st.account, done: true }
    } else {
        let sl = slot_from(s, nm.0->Ok_0, nm.1);
        let account = if sl.2 > 0 && st.account.len() == 0 { hash_number(sl.2 as nat) } else { st.account };
        let slots = st.slots.push(sl.0);
        if i + 1 < count {
            match find_slot(s, sl.1, 100, slot_search_limit(s, sl.1), account) {
                Some(cp) => RosterState { pos: cp, slots, account, done: false },
                None => RosterState { pos: sl.1, slots, account, done: true },
            }
        } else {
            RosterState { pos: sl.1, slots, account, done: false }
        }
    }
}

/// The roster parse after `k` rounds.
pub open spec fn roster_upto(s: Seq<u8>, count: int, k: nat) -> RosterState
    decreases k,
{
    if k == 0 {
        RosterState { pos: 16, slots: seq![], account: seq![], done: false }
    } else {
        let st = roster_upto(s, count, (k - 1) as nat);
        if st.done { st } else { roster_step(s, count, k - 1, st) }
    }
}

/// The roster payload: a 16-byte header whose first word is the number of
/// characters (1 to 50), then the slots.
pub open spec fn char_select_info_at(s: Seq<u8>) -> Option<CharSelectInfoView> {
    if s.len() < 16 || le32(s, 0) == 0 || le32(s, 0) > 50 {
        None
    } else {
        let st = roster_upto(s, le32(s, 0), le32(s, 0) as nat);
        Some(CharSelectInfoView { account_name: st.account, character_slots: st.slots })
    }
}

/// A stopped roster parse stays as it is.
proof fn lemma_roster_done(s: Seq<u8>, count: int, k: nat, m: nat)
    requires
        k <= m,
        roster_upto(s, count, k).done,
    ensures
        roster_upto(s, count, m) == roster_upto(s, count, k),
    decreases m - k,
{
    if m > k {
        lemma_roster_done(s, count, k, (m - 1) as nat);
    }
}

/// Finds the last login time after a slot's fixed fields.
fn scan_timestamp(raw: &[u8], cur: usize) -> (ts: u32)
    ensures
        ts == last_access_after(raw@, cur as int),
{
    let n = raw.len();
    if cur >= n {
        return 0;
    }
    let end = if n - cur > 600 { cur + 600 } else { n };
    let mut j = cur;
    while j <= end && end - j >= 4
        invariant
            cur <= j,
            end <= n,
            n == raw@.len(),
            end == (if cur + 600 < n { cur + 600 } else { n as int }),
            last_access_after(raw@, cur as int) == first_timestamp(raw@, j as int, end as int),
        decreases end - j,
    {
        let v = le32_at(raw, j);
        if v >= 1_500_000_000 && v <= 2_100_000_000 {
            return v;
        }
        j = j + 1;
    }
    0
}

/// Whether a roster slot plausibly starts at `cp`.
fn is_slot_candidate(raw: &[u8], cp: usize, account: &String) -> (b: bool)
    ensures
        b == slot_candidate(raw@, cp as int, account@),
{
    let n = raw.len();
    if !(cp < n && n - cp > 4) {
        return false;
    }
    if raw[cp + 1] != 0 || !is_ascii_alnum(raw[cp] as char) {
        return false;
    }
    let mut t = WireReader::at(raw, cp);
    let test_name = match read_utf16z(&mut t, true) {
        Ok(v) => v,
        Err(_) => { return false; },
    };
    if !(byte_len(&test_name) >= 2 && all_chars_in(&test_name, CharClass::Handle)) {
        return false;
    }
    let _test_id = t.u32_or(0);
    let test_acc = match read_utf16z(&mut t, true) {
        Ok(v) => v,
        Err(_) => { return false; },
    };
    test_acc == *account || (byte_len(&test_acc) >= 2 && all_chars_in(&test_acc, CharClass::Alnum))
}

/// Searches for where the next roster slot starts after `pos`.
fn find_next_slot(raw: &[u8], pos: usize, account: &String) -> (r: Option<usize>)
    requires
        pos <= raw@.len(),
    ensures
        match r {
            Some(cp) => find_slot(raw@, pos as int, 100, slot_search_limit(raw@, pos as int), account@) == Some(cp as int),
            None => find_slot(raw@, pos as int, 100, slot_search_limit(raw@, pos as int), account@) is None,
        },
        r matches Some(cp) ==> cp + 4 < raw@.len(),
{
    let n = raw.len();
    let lim: usize = if n - pos >= 30 { n - pos - 30 } else { 0 };
    let mut off: usize = 100;
    while off < lim
        invariant
            n == raw@.len(),
            pos <= n,
            lim == slot_search_limit(raw@, pos as int),
            lim <= n,
            find_slot(raw@, pos as int, 100, lim as int, account@) == find_slot(raw@, pos as int, off as int, lim as int, account@),
        decreases lim - off,
    {
        if is_slot_candidate(raw, pos + off, account) {
            return Some(pos + off);
        }
        off = off + 1;
    }
    None
}

/// Reads a roster slot after its name: id, title, session id and fixed
/// fields, and the last login time; names the account after the session id
/// when it has no name yet.
fn read_slot_after_name(r: &mut WireReader, name: String, account: &mut String) -> (slot: CharSelectSlot)
    requires
        old(r).wf(),
    ensures
        final(r).wf(),
        final(r).data@ == old(r).data@,
        ({
            let sl = slot_from(old(r).data@, name@, old(r).pos as int);
            &&& slot@ == sl.0
            &&& final(r).pos == sl.1
            &&& final(account)@ == (if sl.2 > 0 && old(account)@.len() == 0 { hash_number(sl.2 as nat) } else { old(account)@ })
        }),
{
    let ghost s = r.data@;
    let ghost p1 = r.pos as int;
    proof { lemma_clamped_read(s, p1, 4); }
    let char_id = r.u32_or(0);
    let title = match read_utf16z(r, true) {
        Ok(t) => t,
        Err(_) => String::new(),
    };
    let ghost t = r.pos as int;
    proof { lemma_clamped_read(s, t, 4); }
    let session_id = r.u32_or(0);
    if session_id > 0 && account.as_str().unicode_len() == 0 {
        *account = hash_number_string(session_id as u64);
    }
    proof { lemma_clamped_read(s, t + 4, 4); }
    let _clan_id = r.u32_or(0);
    proof { lemma_clamped_read(s, t + 8, 4); }
    let _builder = r.u32_or(0);
    proof { lemma_clamped_read(s, t + 12, 4); }
    let _sex = r.u32_or(0);
    proof { lemma_clamped_read(s, t + 16, 4); }
    let _race = r.u32_or(0);
    proof { lemma_clamped_read(s, t + 20, 4); }
    let class_id = r.u32_or(0);
    proof { lemma_clamped_read(s, t + 24, 4); }
    let _active_flag = r.u32_or(0);
    proof { lemma_clamped_read(s, t + 28, 4); }
    let _x = r.i32_or(0);
    proof { lemma_clamped_read(s, t + 32, 4); }
    let _y = r.i32_or(0);
    proof { lemma_clamped_read(s, t + 36, 4); }
    let _z = r.i32_or(0);
    proof { lemma_clamped_read(s, t + 40, 8); }
    let cur_hp_bits = r.u64_or(0);
    proof { lemma_clamped_read(s, t + 48, 8); }
    let cur_mp_bits = r.u64_or(0);
    proof { lemma_clamped_read(s, t + 56, 8); }
    let sp = r.u64_or(0);
    proof { lemma_clamped_read(s, t + 64, 8); }
    let exp = r.u64_or(0);
    proof { lemma_clamped_read(s, t + 72, 8); }
    let exp_fraction_bits = r.u64_or(0);
    proof { lemma_clamped_read(s, t + 80, 4); }
    let level = r.u32_or(0);
    proof { lemma_clamped_read(s, t + 84, 4); }
    let reputation = r.i32_or(0);
    proof { lemma_clamped_read(s, t + 88, 4); }
    let pk_kills = r.u32_or(0);
    proof { lemma_clamped_read(s, t + 92, 4); }
    let pvp_kills = r.u32_or(0);
    let last_access = scan_timestamp(r.data, r.pos);
    CharSelectSlot {
        name,
        title,
        char_id,
        level,
        class_id,
        cur_hp_bits,
        max_hp_bits: cur_hp_bits,
        cur_mp_bits,
        max_mp_bits: cur_mp_bits,
        sp,
        exp,
        exp_fraction_bits,
        reputation,
        pk_kills,
        pvp_kills,
        vitality: 100,
        last_access,
    }
}

/// One round of the roster parse.
fn roster_round<'a>(
    r: &mut WireReader<'a>,
    raw: &'a [u8],
    count: u32,
    i: u32,
    slots: &mut Vec<CharSelectSlot>,
    account: &mut String,
) -> (done: bool)
    requires
        old(r).wf(),
        old(r).data@ == raw@,
        i < count,
    ensures
        final(r).wf(),
        final(r).data@ == raw@,
        ({
            let st = roster_step(
                raw@,
                count as int,
                i as int,
                RosterState { pos: old(r).pos as int, slots: slot_views(old(slots)@), account: old(account)@, done: false },
            );
            &&& final(r).pos == st.pos
            &&& slot_views(final(slots)@) == st.slots
            &&& final(account)@ == st.account
            &&& done == st.done
        }),
{
    match read_utf16z(r, true) {
        Err(_) => false,
        Ok(name) => {
            if name.as_str().unicode_len() == 0 {
                true
            } else {
                let ghost before = slots@;
                let slot = read_slot_after_name(r, name, account);
                slots.push(slot);
                assert(slot_views(slots@) =~= slot_views(before).push(slot@));
                if i + 1 < count {
                    match find_next_slot(raw, r.pos, account) {
                        Some(cp) => {
                            *r = WireReader::at(raw, cp);
                            false
                        },
                        None => true,
                    }
                } else {
                    false
                }
            }
        },
    }
}

impl L2Packet {
    /// Parses the character roster payload.
    pub(crate) fn parse_char_select_info_retail(raw: &[u8]) -> (res: Option<CharSelectInfoPacket>)
        ensures
            view_opt(res) == char_select_info_at(raw@),
    {
        let ghost s = raw@;
        let n = raw.len();
        if n < 16 {
            return None;
        }
        let count = le32_at(raw, 0);
        if count == 0 || count > 50 {
            return None;
        }
        let mut r = WireReader::at(raw, 16);
        let mut character_slots: Vec<CharSelectSlot> = Vec::new();
        let mut account_name = String::new();
        let mut done = false;
        let mut i: u32 = 0;
        assert(slot_views(character_slots@) =~= Seq::<CharSelectSlotView>::empty());
        while i < count && !done
            invariant
                r.wf(),
                r.data@ == s,
                s == raw@,
                1 <= count <= 50,
                count == le32(s, 0),
                i <= count,
                (RosterState {
                    pos: r.pos as int,
                    slots: slot_views(character_slots@),
                    account: account_name@,
                    done,
                }) == roster_upto(s, count as int, i as nat),
            decreases count - i,
        {
            let ghost st = roster_upto(s, count as int, i as nat);
            done = roster_round(&mut r, raw, count, i, &mut character_slots, &mut account_name);
            assert(roster_upto(s, count as int, (i + 1) as nat) == roster_step(s, count as int, i as int, st));
            i = i + 1;
        }
        proof {
            if done {
                lemma_roster_done(s, count as int, i as nat, count as nat);
            }
        }
        Some(CharSelectInfoPacket { account_name, character_slots })
    }
}

} // verus!
