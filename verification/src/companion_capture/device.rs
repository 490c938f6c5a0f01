//! Choosing a capture interface from the host's list.

use vstd::prelude::*;
use vstd::string::StrSliceExecFns;

verus! {

/// A capture interface as the host lists it.
#[derive(Debug, Clone, PartialEq, Eq)]
pub struct NetworkInterface {
    pub name: String,
    pub description: Option<String>,
    pub addresses: Vec<String>,
}

/// Abstract value of a [`NetworkInterface`].
pub struct NetworkInterfaceView {
    pub name: Seq<char>,
    pub description: Option<Seq<char>>,
    pub addresses: Seq<Seq<char>>,
}

impl View for NetworkInterface {
    type V = NetworkInterfaceView;

    open spec fn view(&self) -> NetworkInterfaceView {
        NetworkInterfaceView {
            name: self.name@,
            description: match self.description {
                Some(d) => Some(d@),
                None => None,
            },
            addresses: self.addresses@.map_values(|a: String| a@),
        }
    }
}

/// Views of a list of interfaces.
pub open spec fn interface_views(v: Seq<NetworkInterface>) -> Seq<NetworkInterfaceView> {
    v.map_values(|d: NetworkInterface| d@)
}

// ---------------------------------------------------------------- text

/// Value of a non-empty string of decimal digits; `None` if another
/// character occurs.
pub open spec fn digits_value(t: Seq<char>) -> Option<nat>
    decreases t.len(),
{
    if t.len() == 0 {
        Some(0)
    } else if '0' <= t.last() <= '9' {
        match digits_value(t.drop_last()) {
            Some(v) => Some(v * 10 + (t.last() as nat - 48) as nat),
            None => None,
        }
    } else {
        None
    }
}

/// `usize::from_str`: optional `+`, then at least one decimal digit, with a
/// value that fits.
pub open spec fn usize_parse(t: Seq<char>) -> Option<nat> {
    let d = if t.len() >= 2 && t[0] == '+' { t.drop_first() } else { t };
    if d.len() == 0 {
        None
    } else {
        match digits_value(d) {
            Some(v) => if v <= usize::MAX { Some(v) } else { None },
            None => None,
        }
    }
}

/// ASCII lower case of a character; other characters unchanged.
pub open spec fn ascii_lower(c: char) -> char {
    if 'A' <= c <= 'Z' { ((c as int) + 32) as char } else { c }
}

/// `str::eq_ignore_ascii_case`.
pub open spec fn eq_ignore_ascii_case(a: Seq<char>, b: Seq<char>) -> bool {
    a.len() == b.len() && forall|i: int| 0 <= i < a.len() ==> ascii_lower(#[trigger] a[i]) == ascii_lower(b[i])
}

/// Whether `needle` occurs in `hay` at `i`.
pub open spec fn occurs_at(hay: Seq<char>, needle: Seq<char>, i: int) -> bool {
    0 <= i && i + needle.len() <= hay.len() && hay.subrange(i, i + needle.len()) == needle
}

/// `str::contains` with a string pattern.
pub open spec fn contains(hay: Seq<char>, needle: Seq<char>) -> bool {
    exists|i: int| occurs_at(hay, needle, i)
}

/// `str::to_lowercase`: the Unicode lower-case mapping of a string.
pub uninterp spec fn unicode_lowercase(t: Seq<char>) -> Seq<char>;

/// `str::to_lowercase`: its result is only named; the Unicode case mapping
/// behind it is not stated.
#[verifier::external_body]
fn str_to_lowercase(s: &str) -> (r: String)
    ensures
        r@ == unicode_lowercase(s@),
{
    s.to_lowercase()
}

/// Parses a decimal `usize` as `str::parse` does.
pub fn parse_usize(t: &str) -> (r: Option<usize>)
    ensures
        match r {
            Some(v) => usize_parse(t@) == Some(v as nat),
            None => usize_parse(t@) is None,
        },
{
    let n = t.unicode_len();
    let start: usize = if n >= 2 && t.get_char(0) == '+' { 1 } else { 0 };
    let ghost d = if t@.len() >= 2 && t@[0] == '+' { t@.drop_first() } else { t@ };
    assert(d =~= t@.skip(start as int));
    if n - start == 0 {
        return None;
    }
    let mut v: usize = 0;
    let mut i: usize = start;
    assert(d.take(0) =~= Seq::<char>::empty());
    while i < n
        invariant
            n == t@.len(),
            start <= i <= n,
            start == 0 || start == 1,
            d == t@.skip(start as int),
            d == (if t@.len() >= 2 && t@[0] == '+' { t@.drop_first() } else { t@ }),
            d.len() > 0,
            digits_value(d.take(i - start)) == Some(v as nat),
        decreases n - i,
    {
        let c = t.get_char(i);
        assert(d.take(i - start + 1).drop_last() =~= d.take(i - start));
        assert(d.take(i - start + 1).last() == c);
        if !('0' <= c && c <= '9') {
            proof { lemma_digits_fail(d, (i - start + 1) as nat); }
            return None;
        }
        let dv = (c as u32 - 48) as usize;
        if v > (usize::MAX - dv) / 10 {
            proof {
                assert(digits_value(d.take(i - start + 1)) == Some((v * 10 + dv) as nat));
                lemma_digits_grow(d, (i - start + 1) as nat, (n - start) as nat);
                assert(d.take(n - start) =~= d);
            }
            return None;
        }
        v = v * 10 + dv;
        i = i + 1;
    }
    assert(d.take(n - start) =~= d);
    Some(v)
}

/// A non-digit makes every longer prefix fail.
proof fn lemma_digits_fail(d: Seq<char>, k: nat)
    requires
        1 <= k <= d.len(),
        !('0' <= d[k - 1] <= '9'),
    ensures
        digits_value(d) is None,
    decreases d.len() - k,
{
    if k == d.len() {
        assert(d.take(k as int) =~= d);
        assert(d.last() == d[k - 1]);
    } else {
        lemma_digits_fail(d.drop_last(), k);
        assert(d.drop_last()[k - 1] == d[k - 1]);
    }
}

/// The value of a digit string never decreases as digits are added.
proof fn lemma_digits_grow(d: Seq<char>, k: nat, m: nat)
    requires
        k <= m <= d.len(),
        digits_value(d.take(k as int)) is Some,
    ensures
        digits_value(d.take(m as int)) is None || digits_value(d.take(m as int))->0 >= digits_value(d.take(k as int))->0,
    decreases m - k,
{
    if m > k {
        lemma_digits_grow(d, k, (m - 1) as nat);
        assert(d.take(m as int).drop_last() =~= d.take(m - 1));
    }
}


/// ASCII lower case of a character.
fn to_ascii_lower(c: char) -> (r: char)
    ensures
        r == ascii_lower(c),
{
    if 'A' <= c && c <= 'Z' {
        let v = (c as u32) + 32;
        let b = v as u8;
        b as char
    } else {
        c
    }
}

/// Compares two strings ignoring ASCII case.
pub fn equals_ignore_ascii_case(a: &str, b: &str) -> (r: bool)
    ensures
        r == eq_ignore_ascii_case(a@, b@),
{
    let n = a.unicode_len();
    if n != b.unicode_len() {
        return false;
    }
    let mut i: usize = 0;
    while i < n
        invariant
            n == a@.len(),
            n == b@.len(),
            i <= n,
            forall|j: int| 0 <= j < i ==> ascii_lower(#[trigger] a@[j]) == ascii_lower(b@[j]),
        decreases n - i,
    {
        if to_ascii_lower(a.get_char(i)) != to_ascii_lower(b.get_char(i)) {
            return false;
        }
        i = i + 1;
    }
    true
}

/// Whether `needle` occurs in `hay` at `i`.
fn occurs_at_exec(hay: &str, needle: &str, i: usize) -> (r: bool)
    requires
        i + needle@.len() <= hay@.len(),
    ensures
        r == occurs_at(hay@, needle@, i as int),
{
    let m = needle.unicode_len();
    let n = hay.unicode_len();
    let mut j: usize = 0;
    while j < m
        invariant
            m == needle@.len(),
            n == hay@.len(),
            i + m <= hay@.len(),
            j <= m,
            forall|k: int| 0 <= k < j ==> hay@[i + k] == needle@[k],
        decreases m - j,
    {
        if hay.get_char(i + j) != needle.get_char(j) {
            assert(hay@.subrange(i as int, i + m)[j as int] != needle@[j as int]);
            return false;
        }
        j = j + 1;
    }
    assert(hay@.subrange(i as int, i + m) =~= needle@);
    true
}

/// `str::contains`.
pub fn contains_str(hay: &str, needle: &str) -> (r: bool)
    ensures
        r == contains(hay@, needle@),
{
    let n = hay.unicode_len();
    let m = needle.unicode_len();
    if m > n {
        return false;
    }
    let mut i: usize = 0;
    loop
        invariant
            n == hay@.len(),
            m == needle@.len(),
            m <= n,
            i <= n - m,
            forall|k: int| 0 <= k < i ==> !occurs_at(hay@, needle@, k),
        decreases n - m - i,
    {
        if occurs_at_exec(hay, needle, i) {
            return true;
        }
        if i >= n - m {
            assert forall|k: int| #[trigger] occurs_at(hay@, needle@, k) implies false by {
                assert(0 <= k <= n - m);
            }
            return false;
        }
        i = i + 1;
    }
}

// ---------------------------------------------------------------- IPv4

/// Whether a character is an ASCII decimal digit.
pub open spec fn is_digit(c: char) -> bool {
    '0' <= c <= '9'
}

/// The end of the run of digits that starts at `i`.
pub open spec fn digit_run_end(t: Seq<char>, i: int) -> int
    decreases t.len() - i,
{
    if i < 0 || i >= t.len() || !is_digit(t[i]) {
        i
    } else {
        digit_run_end(t, i + 1)
    }
}

/// Whether `t[i..j]` is a decimal octet as IPv4 text writes it: one to
/// three digits, no leading zero, at most 255.
pub open spec fn octet_text(t: Seq<char>, i: int, j: int) -> bool {
    &&& 1 <= j - i <= 3
    &&& (j - i == 1 || t[i] != '0')
    &&& digits_value(t.subrange(i, j)) matches Some(v) && v <= 255
}

/// The octets of dotted-quad text from `i` on, `k` octets having been read.
pub open spec fn octets_from(t: Seq<char>, i: int, k: nat) -> Option<Seq<u8>>
    decreases 4 - k,
{
    if k >= 4 || i < 0 || i > t.len() {
        None
    } else {
        let j = digit_run_end(t, i);
        if !octet_text(t, i, j) {
            None
        } else {
            let v = digits_value(t.subrange(i, j))->0 as u8;
            if k == 3 {
                if j == t.len() { Some(seq![v]) } else { None }
            } else if j < t.len() && t[j] == '.' {
                match octets_from(t, j + 1, k + 1) {
                    Some(rest) => Some(seq![v] + rest),
                    None => None,
                }
            } else {
                None
            }
        }
    }
}

/// The four octets of an IPv4 address written as `a.b.c.d` with decimal
/// octets, as `IpAddr` parses it; `None` for other text.
pub open spec fn ipv4_octets(t: Seq<char>) -> Option<Seq<u8>> {
    octets_from(t, 0, 0)
}

/// A private LAN address: 192.168.0.0/16, 10.0.0.0/8 or 172.16.0.0/12.
pub open spec fn is_private_v4(o: Seq<u8>) -> bool {
    (o[0] == 192 && o[1] == 168) || o[0] == 10 || (o[0] == 172 && 16 <= o[1] <= 31)
}

/// Neither loopback (127.0.0.0/8) nor link-local (169.254.0.0/16).
pub open spec fn is_routable_v4(o: Seq<u8>) -> bool {
    o[0] != 127 && !(o[0] == 169 && o[1] == 254)
}

/// Whether text is an IPv4 address that is private (`private`) or
/// routable (otherwise).
pub open spec fn v4_address_is(a: Seq<char>, private: bool) -> bool {
    match ipv4_octets(a) {
        Some(o) => if private { is_private_v4(o) } else { is_routable_v4(o) },
        None => false,
    }
}

/// The digits from `i` on: where they end.
fn digit_run(t: &str, i: usize) -> (j: usize)
    requires
        i <= t@.len(),
    ensures
        j == digit_run_end(t@, i as int),
        i <= j <= t@.len(),
{
    let n = t.unicode_len();
    let mut j = i;
    while j < n && '0' <= t.get_char(j) && t.get_char(j) <= '9'
        invariant
            n == t@.len(),
            i <= j <= n,
            digit_run_end(t@, i as int) == digit_run_end(t@, j as int),
        decreases n - j,
    {
        j = j + 1;
    }
    j
}

/// The value of the digits `t[i..j]`, when they are one to three digits.
fn small_digits_value(t: &str, i: usize, j: usize) -> (v: u32)
    requires
        i < j <= t@.len(),
        j - i <= 3,
        forall|k: int| i <= k < j ==> is_digit(#[trigger] t@[k]),
    ensures
        digits_value(t@.subrange(i as int, j as int)) == Some(v as nat),
        v < 1000,
{
    let mut v: u32 = 0;
    let mut k = i;
    assert(t@.subrange(i as int, i as int) =~= Seq::<char>::empty());
    while k < j
        invariant
            i <= k <= j,
            j <= t@.len(),
            j - i <= 3,
            forall|m: int| i <= m < j ==> is_digit(#[trigger] t@[m]),
            digits_value(t@.subrange(i as int, k as int)) == Some(v as nat),
            v < 10u32 * 10u32 * 10u32,
            k - i == 0 ==> v == 0,
            k - i == 1 ==> v < 10,
            k - i == 2 ==> v < 100,
        decreases j - k,
    {
        let c = t.get_char(k);
        assert(is_digit(t@[k as int]));
        assert(t@.subrange(i as int, k + 1).drop_last() =~= t@.subrange(i as int, k as int));
        assert(t@.subrange(i as int, k + 1).last() == c);
        v = v * 10 + (c as u32 - 48);
        k = k + 1;
    }
    v
}

/// Parses dotted-quad IPv4 text.
pub fn parse_ipv4(t: &str) -> (r: Option<[u8; 4]>)
    ensures
        match r {
            Some(o) => ipv4_octets(t@) == Some(o@),
            None => ipv4_octets(t@) is None,
        },
{
    let n = t.unicode_len();
    let mut out: [u8; 4] = [0, 0, 0, 0];
    let mut i: usize = 0;
    let mut k: usize = 0;
    while k < 4
        invariant
            n == t@.len(),
            k <= 3,
            i <= n,
            k < 4 ==> ipv4_octets(t@) == (match octets_from(t@, i as int, k as nat) {
                Some(rest) => Some(out@.take(k as int) + rest),
                None => None::<Seq<u8>>,
            }),
        decreases 4 - k,
    {
        let j = digit_run(t, i);
        if j - i < 1 || j - i > 3 || (j - i > 1 && t.get_char(i) == '0') {
            return None;
        }
        assert forall|m: int| i <= m < j implies is_digit(#[trigger] t@[m]) by {
            lemma_digit_run(t@, i as int, m);
        }
        let v = small_digits_value(t, i, j);
        if v > 255 {
            return None;
        }
        let ghost prev = out@;
        out[k] = v as u8;
        assert(out@.take(k as int) =~= prev.take(k as int));
        if k == 3 {
            if j == n {
                assert(out@.take(3) + seq![v as u8] =~= out@);
                return Some(out);
            }
            return None;
        }
        if j >= n || t.get_char(j) != '.' {
            return None;
        }
        assert(out@.take(k + 1) =~= out@.take(k as int) + seq![v as u8]);
        proof {
            match octets_from(t@, j + 1, (k + 1) as nat) {
                Some(rest) => {
                    assert(out@.take(k as int) + (seq![v as u8] + rest) =~= out@.take(k + 1) + rest);
                },
                None => {},
            }
        }
        i = j + 1;
        k = k + 1;
    }
    None
}

/// Every character before the end of a digit run is a digit.
proof fn lemma_digit_run(t: Seq<char>, i: int, m: int)
    requires
        0 <= i <= m < digit_run_end(t, i),
    ensures
        is_digit(t[m]),
    decreases m - i,
{
    if m > i {
        lemma_digit_run(t, i + 1, m);
    }
}

/// How an interface is matched against a query.
pub enum Criterion {
    /// Its name equals the query, ignoring ASCII case.
    Name,
    /// One of its addresses contains the query.
    Address,
    /// Its description, lower-cased, contains the lower-cased query.
    Description,
    /// One of its addresses is a private IPv4 address.
    PrivateV4,
    /// One of its addresses is an IPv4 address neither loopback nor
    /// link-local.
    RoutableV4,
}

/// Whether an interface meets a criterion.
pub open spec fn meets(d: NetworkInterfaceView, q: Seq<char>, c: Criterion) -> bool {
    match c {
        Criterion::Name => eq_ignore_ascii_case(d.name, q),
        Criterion::Address => exists|k: int| 0 <= k < d.addresses.len() && contains(#[trigger] d.addresses[k], q),
        Criterion::Description => match d.description {
            Some(t) => contains(unicode_lowercase(t), unicode_lowercase(q)),
            None => false,
        },
        Criterion::PrivateV4 => exists|k: int| 0 <= k < d.addresses.len() && #[trigger] v4_address_is(d.addresses[k], true),
        Criterion::RoutableV4 => exists|k: int| 0 <= k < d.addresses.len() && #[trigger] v4_address_is(d.addresses[k], false),
    }
}

/// The first interface from `i` on that meets the criterion.
pub open spec fn first_meeting(v: Seq<NetworkInterfaceView>, q: Seq<char>, c: Criterion, i: int) -> Option<int>
    decreases v.len() - i,
{
    if i < 0 || i >= v.len() {
        None
    } else if meets(v[i], q, c) {
        Some(i)
    } else {
        first_meeting(v, q, c, i + 1)
    }
}

/// Which interface a query selects: a 1-based index within range, else the
/// first whose name matches, else the first with a matching address, else
/// the first whose description matches.
pub open spec fn selected_index(v: Seq<NetworkInterfaceView>, q: Seq<char>) -> Option<int> {
    match usize_parse(q) {
        Some(idx) if 1 <= idx <= v.len() => Some(idx - 1),
        _ => match first_meeting(v, q, Criterion::Name, 0) {
            Some(i) => Some(i),
            None => match first_meeting(v, q, Criterion::Address, 0) {
                Some(i) => Some(i),
                None => first_meeting(v, q, Criterion::Description, 0),
            },
        },
    }
}

/// Which interface to capture on by default: the first with a private IPv4
/// address, else the first with an IPv4 address neither loopback nor
/// link-local, else the first listed.
pub open spec fn default_index(v: Seq<NetworkInterfaceView>) -> Option<int> {
    match first_meeting(v, seq![], Criterion::PrivateV4, 0) {
        Some(i) => Some(i),
        None => match first_meeting(v, seq![], Criterion::RoutableV4, 0) {
            Some(i) => Some(i),
            None => if v.len() > 0 { Some(0) } else { None },
        },
    }
}

/// A copy of an interface.
pub fn copy_interface(d: &NetworkInterface) -> (r: NetworkInterface)
    ensures
        r@ == d@,
{
    let description = match &d.description {
        Some(t) => Some(t.clone()),
        None => None,
    };
    let mut addresses: Vec<String> = Vec::new();
    let mut i: usize = 0;
    while i < d.addresses.len()
        invariant
            i <= d.addresses@.len(),
            addresses@.map_values(|a: String| a@) =~= d.addresses@.take(i as int).map_values(|a: String| a@),
        decreases d.addresses@.len() - i,
    {
        let a = d.addresses[i].clone();
        let ghost before = addresses@;
        addresses.push(a);
        assert(addresses@.map_values(|a: String| a@) =~= before.map_values(|a: String| a@).push(a@));
        assert(d.addresses@.take(i + 1) =~= d.addresses@.take(i as int).push(d.addresses@[i as int]));
        i = i + 1;
    }
    assert(d.addresses@.take(i as int) =~= d.addresses@);
    NetworkInterface { name: d.name.clone(), description, addresses }
}

/// Whether an interface meets a criterion.
fn meets_exec(d: &NetworkInterface, q: &str, c: &Criterion) -> (r: bool)
    ensures
        r == meets(d@, q@, *c),
{
    match c {
        Criterion::Name => equals_ignore_ascii_case(d.name.as_str(), q),
        Criterion::Address => {
            let mut k: usize = 0;
            while k < d.addresses.len()
                invariant
                    k <= d.addresses@.len(),
                    *c is Address,
                    forall|j: int| 0 <= j < k ==> !contains(#[trigger] d@.addresses[j], q@),
                decreases d.addresses@.len() - k,
            {
                assert(d@.addresses[k as int] == d.addresses@[k as int]@);
                if contains_str(d.addresses[k].as_str(), q) {
                    assert(0 <= k < d@.addresses.len() && contains(d@.addresses[k as int], q@));
                    return true;
                }
                k = k + 1;
            }
            false
        },
        Criterion::Description => match &d.description {
            Some(t) => {
                let lt = str_to_lowercase(t.as_str());
                let lq = str_to_lowercase(q);
                contains_str(lt.as_str(), lq.as_str())
            },
            None => false,
        },
        Criterion::PrivateV4 | Criterion::RoutableV4 => {
            let private = match c { Criterion::PrivateV4 => true, _ => false };
            let mut k: usize = 0;
            while k < d.addresses.len()
                invariant
                    k <= d.addresses@.len(),
                    *c is PrivateV4 || *c is RoutableV4,
                    private == (*c is PrivateV4),
                    forall|j: int| 0 <= j < k ==> !(#[trigger] v4_address_is(d@.addresses[j], private)),
                decreases d.addresses@.len() - k,
            {
                assert(d@.addresses[k as int] == d.addresses@[k as int]@);
                if let Some(o) = parse_ipv4(d.addresses[k].as_str()) {
                    let hit = if private {
                        (o[0] == 192 && o[1] == 168) || o[0] == 10 || (o[0] == 172 && 16 <= o[1] && o[1] <= 31)
                    } else {
                        o[0] != 127 && !(o[0] == 169 && o[1] == 254)
                    };
                    if hit {
                        assert(0 <= k < d@.addresses.len() && v4_address_is(d@.addresses[k as int], private));
                        return true;
                    }
                }
                k = k + 1;
            }
            false
        },
    }
}

/// The first interface that meets a criterion.
fn first_meeting_exec(devices: &Vec<NetworkInterface>, q: &str, c: Criterion) -> (r: Option<usize>)
    ensures
        match r {
            Some(i) => first_meeting(interface_views(devices@), q@, c, 0) == Some(i as int),
            None => first_meeting(interface_views(devices@), q@, c, 0) is None,
        },
        r matches Some(i) ==> i < devices@.len(),
{
    let ghost v = interface_views(devices@);
    let mut i: usize = 0;
    while i < devices.len()
        invariant
            v == interface_views(devices@),
            v.len() == devices@.len(),
            i <= devices@.len(),
            first_meeting(v, q@, c, 0) == first_meeting(v, q@, c, i as int),
        decreases devices@.len() - i,
    {
        if meets_exec(&devices[i], q, &c) {
            return Some(i);
        }
        i = i + 1;
    }
    None
}

/// Finds an interface by 1-based index, name (ignoring ASCII case), a part
/// of one of its addresses, or a part of its description (ignoring case).
pub fn find_device(devices: &Vec<NetworkInterface>, query: &str) -> (r: Option<NetworkInterface>)
    ensures
        match selected_index(interface_views(devices@), query@) {
            Some(i) => 0 <= i < devices@.len() && r is Some && r->0@ == interface_views(devices@)[i],
            None => r is None,
        },
{
    let ghost v = interface_views(devices@);
    if let Some(idx) = parse_usize(query) {
        if idx >= 1 && idx <= devices.len() {
            return Some(copy_interface(&devices[idx - 1]));
        }
    }
    if let Some(i) = first_meeting_exec(devices, query, Criterion::Name) {
        return Some(copy_interface(&devices[i]));
    }
    if let Some(i) = first_meeting_exec(devices, query, Criterion::Address) {
        return Some(copy_interface(&devices[i]));
    }
    if let Some(i) = first_meeting_exec(devices, query, Criterion::Description) {
        return Some(copy_interface(&devices[i]));
    }
    None
}

} // verus!

verus! {

/// Picks the interface to capture on when none was named: the first with a
/// private LAN address (192.168/16, 10/8, 172.16/12), else the first with
/// an IPv4 address that is neither loopback nor link-local, else the first.
pub fn default_device(devices: &Vec<NetworkInterface>) -> (r: Option<NetworkInterface>)
    ensures
        match default_index(interface_views(devices@)) {
            Some(i) => 0 <= i < devices@.len() && r is Some && r->0@ == interface_views(devices@)[i],
            None => r is None,
        },
{
    let none = "";
    proof { reveal_strlit(""); }
    assert(none@ =~= Seq::<char>::empty());
    if let Some(i) = first_meeting_exec(devices, none, Criterion::PrivateV4) {
        return Some(copy_interface(&devices[i]));
    }
    if let Some(i) = first_meeting_exec(devices, none, Criterion::RoutableV4) {
        return Some(copy_interface(&devices[i]));
    }
    if devices.len() > 0 {
        return Some(copy_interface(&devices[0]));
    }
    None
}

} // verus!
