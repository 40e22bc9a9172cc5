//! Turning raw system readings into the values the display shows.

use vstd::prelude::*;
use crate::text::{decimal, digit_char, has_prefix, push_decimal, starts_with, to_string};

verus! {

// ---------------------------------------------------------------- uptime

/// Days, hours and minutes of `secs` seconds: "2d 4h 12m", or without the
/// leading parts that are zero ("4h 12m", "12m").
pub open spec fn uptime_text(secs: nat) -> Seq<char> {
    let days = secs / 86400;
    let hours = (secs % 86400) / 3600;
    let mins = (secs % 3600) / 60;
    if days > 0 {
        decimal(days) + seq!['d', ' '] + decimal(hours) + seq!['h', ' '] + decimal(mins) + seq!['m']
    } else if hours > 0 {
        decimal(hours) + seq!['h', ' '] + decimal(mins) + seq!['m']
    } else {
        decimal(mins) + seq!['m']
    }
}

/// The shown days, hours and minutes account for the uptime to the
/// minute: hours stay below 24, minutes below 60, and the time they add up
/// to is at most `secs` and less than a minute short of it.
pub proof fn lemma_uptime_parts(secs: nat)
    ensures
        ({
            let days = secs / 86400;
            let hours = (secs % 86400) / 3600;
            let mins = (secs % 3600) / 60;
            &&& hours < 24
            &&& mins < 60
            &&& days * 86400 + hours * 3600 + mins * 60 <= secs
            &&& secs < days * 86400 + hours * 3600 + mins * 60 + 60
        }),
{
    let days = secs / 86400;
    let r = secs % 86400;
    let hours = r / 3600;
    let mins = (secs % 3600) / 60;
    assert(secs == days * 86400 + r) by (nonlinear_arith)
        requires days == secs / 86400, r == secs % 86400;
    assert(r == hours * 3600 + r % 3600) by (nonlinear_arith)
        requires hours == r / 3600;
    assert(secs % 3600 == r % 3600) by (nonlinear_arith)
        requires secs == days * 86400 + r, r == secs % 86400;
    assert(r % 3600 == mins * 60 + r % 60) by (nonlinear_arith)
        requires mins == (secs % 3600) / 60, secs % 3600 == r % 3600;
    assert(hours < 24) by (nonlinear_arith)
        requires hours == r / 3600, r < 86400;
}

/// The uptime text shows the days, hours and minutes that `secs` seconds
/// make up: for any `d`, `h`, `m` with `h < 24`, `m < 60` and
/// `d·86400 + h·3600 + m·60 <= secs < d·86400 + h·3600 + m·60 + 60`, the text
/// is "<d>d <h>h <m>m", leaving out days when there are none, and hours too
/// when there are neither.
pub proof fn lemma_uptime_text_shows_parts(secs: nat, d: nat, h: nat, m: nat)
    requires
        h < 24,
        m < 60,
        d * 86400 + h * 3600 + m * 60 <= secs,
        secs < d * 86400 + h * 3600 + m * 60 + 60,
    ensures
        d > 0 ==> uptime_text(secs) == decimal(d) + seq!['d', ' '] + decimal(h) + seq!['h', ' ']
            + decimal(m) + seq!['m'],
        d == 0 && h > 0 ==> uptime_text(secs) == decimal(h) + seq!['h', ' '] + decimal(m) + seq![
            'm',
        ],
        d == 0 && h == 0 ==> uptime_text(secs) == decimal(m) + seq!['m'],
{
    let rest: nat = (h * 3600 + m * 60 + (secs - (d * 86400 + h * 3600 + m * 60))) as nat;
    assert(rest < 86400);
    assert(secs == d * 86400 + rest);
    assert(secs / 86400 == d && secs % 86400 == rest) by (nonlinear_arith)
        requires secs == d * 86400 + rest, rest < 86400;
    let low: nat = (rest - h * 3600) as nat;
    assert(low < 3600);
    assert(rest / 3600 == h && rest % 3600 == low) by (nonlinear_arith)
        requires rest == h * 3600 + low, low < 3600;
    assert(secs % 3600 == low) by (nonlinear_arith)
        requires secs == d * 86400 + h * 3600 + low, low < 3600;
    assert(low / 60 == m) by (nonlinear_arith)
        requires low >= m * 60, low < m * 60 + 60;
}

/// Formats an uptime of `secs` seconds.
pub fn get_uptime_str(secs: u64) -> (s: String)
    ensures
        s@ == uptime_text(secs as nat),
{
    let days: u64 = secs / 86400;
    let hours: u64 = (secs % 86400) / 3600;
    let mins: u64 = (secs % 3600) / 60;
    let mut s = String::new();
    if days > 0 {
        push_decimal(&mut s, days);
        s.push('d');
        s.push(' ');
        push_decimal(&mut s, hours);
        s.push('h');
        s.push(' ');
        push_decimal(&mut s, mins);
        s.push('m');
    } else if hours > 0 {
        push_decimal(&mut s, hours);
        s.push('h');
        s.push(' ');
        push_decimal(&mut s, mins);
        s.push('m');
    } else {
        push_decimal(&mut s, mins);
        s.push('m');
    }
    proof {
        assert(s@ =~= uptime_text(secs as nat));
    }
    s
}

// ----------------------------------------------------------- percentages

/// Whole percent of `used` in `total`, rounded down and capped at 100;
/// 0 when `total` is 0.
pub open spec fn percent_of(used: nat, total: nat) -> nat {
    if total == 0 {
        0
    } else if used * 100 / total > 100 {
        100
    } else {
        used * 100 / total
    }
}

/// A percentage never exceeds 100, and more use never shows less.
pub proof fn lemma_percent_bounded_monotone(u1: nat, u2: nat, total: nat)
    requires
        u1 <= u2,
    ensures
        percent_of(u1, total) <= 100,
        percent_of(u1, total) <= percent_of(u2, total),
{
    if total > 0 {
        assert(u1 * 100 / total <= u2 * 100 / total) by (nonlinear_arith)
            requires u1 <= u2, total > 0;
    }
}

/// The percentage is the whole part of `used·100/total`: rounded down, so
/// `p·total <= used·100 < (p+1)·total` while use is below the total; full
/// (or more) use shows 100, and a total of 0 shows 0.
pub proof fn lemma_percent_is_floor(used: nat, total: nat)
    ensures
        total > 0 && used < total ==> percent_of(used, total) * total <= used * 100 < (percent_of(
            used,
            total,
        ) + 1) * total,
        total > 0 && used >= total ==> percent_of(used, total) == 100,
        total == 0 ==> percent_of(used, total) == 0,
{
    if total > 0 {
        let q = used * 100 / total;
        assert(q * total <= used * 100 < (q + 1) * total) by (nonlinear_arith)
            requires q == used * 100 / total, total > 0;
        if used < total {
            assert(q < 100) by (nonlinear_arith)
                requires q * total <= used * 100, used < total, total > 0;
        } else {
            assert(q >= 100) by (nonlinear_arith)
                requires (q + 1) * total > used * 100, used >= total, total > 0;
        }
    }
}

/// Computes `percent_of(used, total)`.
pub fn percent(used: u64, total: u64) -> (p: u8)
    ensures
        p == percent_of(used as nat, total as nat),
{
    if total == 0 {
        return 0;
    }
    let q: u128 = (used as u128 * 100) / (total as u128);
    if q > 100 {
        100
    } else {
        q as u8
    }
}

/// Memory use in percent, from the total and used memory.
pub fn get_memory_percent(total: u64, used: u64) -> (p: u8)
    ensures
        p == percent_of(used as nat, total as nat),
{
    percent(used, total)
}

/// A mounted file system's size and free space, in bytes.
pub struct DiskUsage {
    pub mount_point: String,
    pub total: u64,
    pub available: u64,
}

/// The path `p` names the root directory when compared as a path, component
/// by component: it starts with `/`, and after that holds only further
/// separators and `.` components (so "/", "//", "/." and "/./" all name
/// the root, while "", "." and "/a" do not).
pub open spec fn is_root_path(p: Seq<char>) -> bool {
    &&& p.len() > 0
    &&& p[0] == '/'
    &&& forall|i: int|
        0 <= i < p.len() ==> (#[trigger] p[i] == '/' || (p[i] == '.' && i > 0 && p[i - 1] == '/'
            && (i + 1 == p.len() || p[i + 1] == '/')))
}

/// The file system is the one mounted at the root directory.
pub open spec fn is_root_mount(d: DiskUsage) -> bool {
    is_root_path(d.mount_point@)
}

/// Tells whether a path names the root directory, comparing components.
pub fn is_root(path: &str) -> (b: bool)
    ensures
        b == is_root_path(path@),
{
    let n: usize = path.unicode_len();
    if n == 0 || path.get_char(0) != '/' {
        return false;
    }
    let mut i: usize = 0;
    while i < n
        invariant
            0 < n == path@.len(),
            path@[0] == '/',
            i <= n,
            forall|j: int|
                0 <= j < i ==> (#[trigger] path@[j] == '/' || (path@[j] == '.' && j > 0 && path@[j
                    - 1] == '/' && (j + 1 == path@.len() || path@[j + 1] == '/'))),
        decreases n - i,
    {
        let c = path.get_char(i);
        if c != '/' {
            let ok = c == '.' && i > 0 && path.get_char(i - 1) == '/' && (i + 1 == n || path.get_char(i + 1) == '/');
            if !ok {
                return false;
            }
        }
        i = i + 1;
    }
    true
}

/// Percent of a file system in use: size less free space, over size.
pub open spec fn disk_used_percent(d: DiskUsage) -> nat {
    let used: nat = if d.available <= d.total { (d.total - d.available) as nat } else { 0 };
    percent_of(used, d.total as nat)
}

/// Use of the first file system in `disks` from index `i` on that is
/// mounted at `/`, or 0 when there is none.
pub open spec fn root_percent_from(disks: Seq<DiskUsage>, i: int) -> nat
    decreases disks.len() - i,
{
    if i < 0 || i >= disks.len() {
        0
    } else if is_root_mount(disks[i]) {
        disk_used_percent(disks[i])
    } else {
        root_percent_from(disks, i + 1)
    }
}

/// The disk shown is the first one mounted at `/`: when disk `k` has mount
/// point "/" and no disk before it names the root directory, the result is
/// the whole percent of its space in use (size less free space) over its
/// size, 0 for a size of 0.
pub proof fn lemma_disk_percent_first_root(disks: Seq<DiskUsage>, k: int)
    requires
        0 <= k < disks.len(),
        disks[k].mount_point@ == seq!['/'],
        forall|x: int| 0 <= x < k ==> !is_root_path(#[trigger] disks[x].mount_point@),
    ensures
        ({
            let d = disks[k];
            let used: nat = if d.available <= d.total { (d.total - d.available) as nat } else { 0 };
            &&& d.total == 0 ==> root_percent_from(disks, 0) == 0
            &&& d.total > 0 && used < d.total ==> root_percent_from(disks, 0) * d.total <= used
                * 100 < (root_percent_from(disks, 0) + 1) * d.total
            &&& d.total > 0 && used >= d.total ==> root_percent_from(disks, 0) == 100
        }),
{
    lemma_root_skips(disks, 0, k);
    assert(is_root_path(disks[k].mount_point@));
    let d = disks[k];
    let used: nat = if d.available <= d.total { (d.total - d.available) as nat } else { 0 };
    lemma_percent_is_floor(used, d.total as nat);
}

/// Disks from `i` up to `k` that are not mounted at the root are passed over.
proof fn lemma_root_skips(disks: Seq<DiskUsage>, i: int, k: int)
    requires
        0 <= i <= k <= disks.len(),
        forall|x: int| 0 <= x < k ==> !is_root_path(#[trigger] disks[x].mount_point@),
    ensures
        root_percent_from(disks, i) == root_percent_from(disks, k),
    decreases k - i,
{
    if i < k {
        assert(!is_root_path(disks[i].mount_point@));
        lemma_root_skips(disks, i + 1, k);
    }
}

/// Use of the root file system in percent: the first of `disks` whose mount
/// point names the root directory, or 0 when none does.
pub fn get_disk_percent(disks: &Vec<DiskUsage>) -> (p: u8)
    ensures
        p == root_percent_from(disks@, 0),
{
    let mut i: usize = 0;
    while i < disks.len()
        invariant
            i <= disks.len(),
            root_percent_from(disks@, 0) == root_percent_from(disks@, i as int),
        decreases disks.len() - i,
    {
        let d = &disks[i];
        assert(d == disks@[i as int]);
        if is_root(d.mount_point.as_str()) {
            let used: u64 = d.total.saturating_sub(d.available);
            return percent(used, d.total);
        }
        assert(!is_root_mount(disks@[i as int]));
        i = i + 1;
    }
    0
}

// --------------------------------------------------------------- hostname

/// The host name, or `?` when the system has none.
pub fn get_hostname(name: Option<String>) -> (s: String)
    ensures
        s@ == (match name {
            Some(n) => n@,
            None => seq!['?'],
        }),
{
    match name {
        Some(n) => n,
        None => {
            let mut s = String::new();
            s.push('?');
            s
        },
    }
}

// ----------------------------------------------------------- load average

/// A value given in hundredths, with two decimals ("0.45", "12.07").
pub open spec fn centi_text(c: nat) -> Seq<char> {
    decimal(c / 100) + seq!['.', digit_char((c % 100) / 10), digit_char(c % 10)]
}

/// Appends a value given in hundredths, with two decimals.
fn push_centi(s: &mut String, c: u64)
    ensures
        final(s)@ == old(s)@ + centi_text(c as nat),
{
    push_decimal(s, c / 100);
    s.push('.');
    s.push((((c % 100) / 10) as u8 + 48) as char);
    s.push(((c % 10) as u8 + 48) as char);
    proof {
        assert(s@ =~= old(s)@ + centi_text(c as nat));
    }
}

/// The load averages over 1, 5 and 15 minutes, given in hundredths, with
/// two decimals each and separated by spaces ("0.45 0.38 0.31").
pub fn get_loadavg(one: u64, five: u64, fifteen: u64) -> (s: String)
    ensures
        s@ == centi_text(one as nat) + seq![' '] + centi_text(five as nat) + seq![' '] + centi_text(
            fifteen as nat,
        ),
{
    let mut s = String::new();
    push_centi(&mut s, one);
    s.push(' ');
    push_centi(&mut s, five);
    s.push(' ');
    push_centi(&mut s, fifteen);
    proof {
        assert(s@ =~= centi_text(one as nat) + seq![' '] + centi_text(five as nat) + seq![' ']
            + centi_text(fifteen as nat));
    }
    s
}

// ---------------------------------------------------------------- network

/// An address of a network interface: IPv4 with its four octets, or any
/// IPv6 address.
#[derive(Clone, Copy, Debug, PartialEq, Eq, Structural)]
pub enum IpAddress {
    V4(u8, u8, u8, u8),
    V6,
}

/// A network interface: its name and addresses.
pub struct Interface {
    pub name: String,
    pub addrs: Vec<IpAddress>,
}

/// Loopback, Docker bridge and virtual Ethernet interfaces are skipped.
pub open spec fn is_virtual_iface(name: Seq<char>) -> bool {
    ||| has_prefix(name, seq!['l', 'o'])
    ||| has_prefix(name, seq!['d', 'o', 'c', 'k', 'e', 'r'])
    ||| has_prefix(name, seq!['v', 'e', 't', 'h'])
}

/// An address worth showing: IPv4 outside the loopback block 127.0.0.0/8.
pub open spec fn is_shown_addr(a: IpAddress) -> bool {
    match a {
        IpAddress::V4(a0, _, _, _) => a0 != 127,
        IpAddress::V6 => false,
    }
}

/// Dotted-quad text of an IPv4 address.
pub open spec fn ipv4_text(a: u8, b: u8, c: u8, d: u8) -> Seq<char> {
    decimal(a as nat) + seq!['.'] + decimal(b as nat) + seq!['.'] + decimal(c as nat) + seq!['.']
        + decimal(d as nat)
}

/// The text of an address (only IPv4 addresses are ever shown).
pub open spec fn addr_text(a: IpAddress) -> Seq<char> {
    match a {
        IpAddress::V4(a0, a1, a2, a3) => ipv4_text(a0, a1, a2, a3),
        IpAddress::V6 => Seq::empty(),
    }
}

/// The first shown address of `addrs` from index `j` on.
pub open spec fn first_shown_from(addrs: Seq<IpAddress>, j: int) -> Option<IpAddress>
    decreases addrs.len() - j,
{
    if j < 0 || j >= addrs.len() {
        None
    } else if is_shown_addr(addrs[j]) {
        Some(addrs[j])
    } else {
        first_shown_from(addrs, j + 1)
    }
}

/// The first interface from index `i` on that is not virtual and has a
/// shown address, with that address's text and the interface's name.
pub open spec fn net_info_from(ifaces: Seq<Interface>, i: int) -> Option<(Seq<char>, Seq<char>)>
    decreases ifaces.len() - i,
{
    if i < 0 || i >= ifaces.len() {
        None
    } else if !is_virtual_iface(ifaces[i].name@) && first_shown_from(ifaces[i].addrs@, 0) is Some {
        Some((addr_text(first_shown_from(ifaces[i].addrs@, 0)->0), ifaces[i].name@))
    } else {
        net_info_from(ifaces, i + 1)
    }
}

/// The text of "no address".
pub open spec fn no_ip_text() -> Seq<char> {
    seq!['n', 'o', ' ', 'i', 'p']
}

/// The address and interface that `get_net_info` reports for `ifaces`.
pub open spec fn net_info_of(ifaces: Seq<Interface>) -> (Seq<char>, Seq<char>) {
    match net_info_from(ifaces, 0) {
        Some(r) => r,
        None => (no_ip_text(), Seq::empty()),
    }
}

/// The reported address belongs to an interface that is not virtual and is
/// one of its IPv4 addresses outside the loopback block; "no ip" is reported
/// only when no interface has such an address.
pub proof fn lemma_net_info_choice(ifaces: Seq<Interface>, i: int)
    requires
        0 <= i,
    ensures
        net_info_from(ifaces, i) matches Some((ip, name)) ==> exists|k: int, j: int|
            i <= k < ifaces.len() && 0 <= j < ifaces[k].addrs@.len() && name == ifaces[k].name@
                && !is_virtual_iface(name) && is_shown_addr(ifaces[k].addrs@[j]) && ip
                == addr_text(ifaces[k].addrs@[j]),
        net_info_from(ifaces, i) is None ==> forall|k: int, j: int|
            i <= k < ifaces.len() && 0 <= j < ifaces[k].addrs@.len() && !is_virtual_iface(
                ifaces[k].name@,
            ) ==> !is_shown_addr(ifaces[k].addrs@[j]),
    decreases ifaces.len() - i,
{
    if i < ifaces.len() {
        lemma_net_info_choice(ifaces, i + 1);
        lemma_first_shown(ifaces[i].addrs@, 0);
    }
}

/// The first shown address is one of the addresses and is shown; when there
/// is none, no address from `j` on is shown.
pub proof fn lemma_first_shown(addrs: Seq<IpAddress>, j: int)
    requires
        0 <= j,
    ensures
        first_shown_from(addrs, j) matches Some(a) ==> exists|m: int|
            j <= m < addrs.len() && addrs[m] == a && is_shown_addr(a),
        first_shown_from(addrs, j) is None ==> forall|m: int|
            j <= m < addrs.len() ==> !is_shown_addr(addrs[m]),
    decreases addrs.len() - j,
{
    if j < addrs.len() {
        lemma_first_shown(addrs, j + 1);
    }
}

/// The name of a loopback (`lo…`), Docker (`docker…`) or virtual Ethernet
/// (`veth…`) interface, spelled out.
pub open spec fn skipped_name(n: Seq<char>) -> bool {
    ||| n.len() >= 2 && n[0] == 'l' && n[1] == 'o'
    ||| n.len() >= 6 && n[0] == 'd' && n[1] == 'o' && n[2] == 'c' && n[3] == 'k' && n[4] == 'e'
        && n[5] == 'r'
    ||| n.len() >= 4 && n[0] == 'v' && n[1] == 'e' && n[2] == 't' && n[3] == 'h'
}

/// An address that may be shown: IPv4 with a first octet other than 127.
pub open spec fn usable(a: IpAddress) -> bool {
    a matches IpAddress::V4(a0, _, _, _) && a0 != 127
}

/// The interface and address shown are the first ones that qualify: when
/// interface `k` is the first that is not loopback, Docker or virtual
/// Ethernet and has an IPv4 address outside 127.0.0.0/8, and that address
/// is its `j`-th and the first such, the result is that address in dotted
/// decimal and that interface's name.
pub proof fn lemma_net_info_first(ifaces: Seq<Interface>, k: int, j: int)
    requires
        0 <= k < ifaces.len(),
        0 <= j < ifaces[k].addrs@.len(),
        !skipped_name(ifaces[k].name@),
        usable(ifaces[k].addrs@[j]),
        forall|i: int| 0 <= i < j ==> !usable(#[trigger] ifaces[k].addrs@[i]),
        forall|x: int, i: int|
            0 <= x < k && 0 <= i < ifaces[x].addrs@.len() && !skipped_name(ifaces[x].name@)
                ==> !usable(#[trigger] ifaces[x].addrs@[i]),
    ensures
        ({
            let a = ifaces[k].addrs@[j];
            net_info_of(ifaces) == (
                decimal(a->0 as nat) + seq!['.'] + decimal(a->1 as nat) + seq!['.'] + decimal(
                    a->2 as nat,
                ) + seq!['.'] + decimal(a->3 as nat),
                ifaces[k].name@,
            )
        }),
{
    lemma_skipped_is_virtual(ifaces[k].name@);
    lemma_first_shown_at(ifaces[k].addrs@, 0, j);
    lemma_net_info_skips(ifaces, 0, k);
}

/// When no interface qualifies, "no ip" and an empty name are reported.
pub proof fn lemma_net_info_none(ifaces: Seq<Interface>)
    requires
        forall|x: int, i: int|
            0 <= x < ifaces.len() && 0 <= i < ifaces[x].addrs@.len() && !skipped_name(
                ifaces[x].name@,
            ) ==> !usable(#[trigger] ifaces[x].addrs@[i]),
    ensures
        net_info_of(ifaces) == (seq!['n', 'o', ' ', 'i', 'p'], Seq::<char>::empty()),
{
    lemma_net_info_skips(ifaces, 0, ifaces.len() as int);
}

/// The spelled-out skipped names are the virtual interface names.
proof fn lemma_skipped_is_virtual(n: Seq<char>)
    ensures
        skipped_name(n) == is_virtual_iface(n),
{
    if n.len() >= 2 && n[0] == 'l' && n[1] == 'o' {
        assert(n.subrange(0, 2) =~= seq!['l', 'o']);
    }
    if n.len() >= 6 && n[0] == 'd' && n[1] == 'o' && n[2] == 'c' && n[3] == 'k' && n[4] == 'e'
        && n[5] == 'r' {
        assert(n.subrange(0, 6) =~= seq!['d', 'o', 'c', 'k', 'e', 'r']);
    }
    if n.len() >= 4 && n[0] == 'v' && n[1] == 'e' && n[2] == 't' && n[3] == 'h' {
        assert(n.subrange(0, 4) =~= seq!['v', 'e', 't', 'h']);
    }
    if has_prefix(n, seq!['l', 'o']) {
        assert(n.subrange(0, 2)[0] == n[0] && n.subrange(0, 2)[1] == n[1]);
    }
    if has_prefix(n, seq!['d', 'o', 'c', 'k', 'e', 'r']) {
        let p = n.subrange(0, 6);
        assert(p[0] == n[0] && p[1] == n[1] && p[2] == n[2] && p[3] == n[3] && p[4] == n[4] && p[5]
            == n[5]);
    }
    if has_prefix(n, seq!['v', 'e', 't', 'h']) {
        let p = n.subrange(0, 4);
        assert(p[0] == n[0] && p[1] == n[1] && p[2] == n[2] && p[3] == n[3]);
    }
}

/// The first shown address from `i` on is the `j`-th when it is the first
/// usable one there.
proof fn lemma_first_shown_at(addrs: Seq<IpAddress>, i: int, j: int)
    requires
        0 <= i <= j < addrs.len(),
        usable(addrs[j]),
        forall|x: int| i <= x < j ==> !usable(#[trigger] addrs[x]),
    ensures
        first_shown_from(addrs, i) == Some(addrs[j]),
    decreases j - i,
{
    if i < j {
        assert(!usable(addrs[i]));
        lemma_first_shown_at(addrs, i + 1, j);
    }
}

/// With no usable address from `i` on, there is no shown one.
proof fn lemma_first_shown_none(addrs: Seq<IpAddress>, i: int)
    requires
        0 <= i,
        forall|x: int| i <= x < addrs.len() ==> !usable(#[trigger] addrs[x]),
    ensures
        first_shown_from(addrs, i) is None,
    decreases addrs.len() - i,
{
    if i < addrs.len() {
        assert(!usable(addrs[i]));
        lemma_first_shown_none(addrs, i + 1);
    }
}

/// Interfaces from `i` up to `k` that do not qualify are passed over.
proof fn lemma_net_info_skips(ifaces: Seq<Interface>, i: int, k: int)
    requires
        0 <= i <= k <= ifaces.len(),
        forall|x: int, a: int|
            0 <= x < k && 0 <= a < ifaces[x].addrs@.len() && !skipped_name(ifaces[x].name@)
                ==> !usable(#[trigger] ifaces[x].addrs@[a]),
    ensures
        net_info_from(ifaces, i) == net_info_from(ifaces, k),
    decreases k - i,
{
    if i < k {
        lemma_skipped_is_virtual(ifaces[i].name@);
        if !is_virtual_iface(ifaces[i].name@) {
            assert forall|x: int| 0 <= x < ifaces[i].addrs@.len() implies !usable(
                #[trigger] ifaces[i].addrs@[x],
            ) by {}
            lemma_first_shown_none(ifaces[i].addrs@, 0);
        }
        lemma_net_info_skips(ifaces, i + 1, k);
    }
}

/// Tells whether an interface name is one of the skipped virtual ones.
pub fn is_virtual(name: &str) -> (b: bool)
    ensures
        b == is_virtual_iface(name@),
{
    proof {
        reveal_strlit("lo");
        reveal_strlit("docker");
        reveal_strlit("veth");
        assert("lo"@ =~= seq!['l', 'o']);
        assert("docker"@ =~= seq!['d', 'o', 'c', 'k', 'e', 'r']);
        assert("veth"@ =~= seq!['v', 'e', 't', 'h']);
    }
    starts_with(name, "lo") || starts_with(name, "docker") || starts_with(name, "veth")
}

/// Dotted-quad text of an IPv4 address.
pub fn fmt_ipv4(a: u8, b: u8, c: u8, d: u8) -> (s: String)
    ensures
        s@ == ipv4_text(a, b, c, d),
{
    let mut s = String::new();
    push_decimal(&mut s, a as u64);
    s.push('.');
    push_decimal(&mut s, b as u64);
    s.push('.');
    push_decimal(&mut s, c as u64);
    s.push('.');
    push_decimal(&mut s, d as u64);
    proof {
        assert(s@ =~= ipv4_text(a, b, c, d));
    }
    s
}

/// The first shown address of `addrs`.
fn first_shown(addrs: &Vec<IpAddress>) -> (r: Option<IpAddress>)
    ensures
        r == first_shown_from(addrs@, 0),
        r matches Some(a) ==> is_shown_addr(a),
{
    let mut j: usize = 0;
    while j < addrs.len()
        invariant
            j <= addrs.len(),
            first_shown_from(addrs@, 0) == first_shown_from(addrs@, j as int),
        decreases addrs.len() - j,
    {
        let a = addrs[j];
        match a {
            IpAddress::V4(a0, _, _, _) => {
                if a0 != 127 {
                    return Some(a);
                }
            },
            IpAddress::V6 => {},
        }
        j = j + 1;
    }
    None
}

/// The address and name of the first interface that is not loopback,
/// Docker or virtual Ethernet and has an IPv4 address outside 127.0.0.0/8;
/// `("no ip", "")` when there is none.
pub fn get_net_info(ifaces: &Vec<Interface>) -> (r: (String, String))
    ensures
        (r.0@, r.1@) == net_info_of(ifaces@),
{
    let mut i: usize = 0;
    while i < ifaces.len()
        invariant
            i <= ifaces.len(),
            net_info_from(ifaces@, 0) == net_info_from(ifaces@, i as int),
        decreases ifaces.len() - i,
    {
        let iface = &ifaces[i];
        assert(iface == ifaces@[i as int]);
        if !is_virtual(iface.name.as_str()) {
            match first_shown(&iface.addrs) {
                Some(IpAddress::V4(a, b, c, d)) => {
                    return (fmt_ipv4(a, b, c, d), iface.name.clone());
                },
                _ => {},
            }
        }
        i = i + 1;
    }
    let mut none = String::new();
    none.append("no ip");
    proof {
        reveal_strlit("no ip");
        assert(none@ =~= no_ip_text());
    }
    (none, String::new())
}

// ---------------------------------------------------------------- traffic

/// Byte counters of one interface since it came up.
pub struct TrafficCounter {
    pub name: String,
    pub rx_total: u64,
    pub tx_total: u64,
}

/// Sum of the received (`rx`) or transmitted counters of the interfaces in
/// `c` before index `n` that are not virtual.
pub open spec fn traffic_sum(c: Seq<TrafficCounter>, n: int, rx: bool) -> nat
    decreases n,
{
    if n <= 0 || n > c.len() {
        0
    } else {
        let prev = traffic_sum(c, n - 1, rx);
        if is_virtual_iface(c[n - 1].name@) {
            prev
        } else if rx {
            prev + (c[n - 1].rx_total as nat)
        } else {
            prev + (c[n - 1].tx_total as nat)
        }
    }
}

/// `x` capped at `u64::MAX`.
pub open spec fn cap_u64(x: nat) -> nat {
    if x > u64::MAX {
        u64::MAX as nat
    } else {
        x
    }
}

/// Totals of received and transmitted bytes over the interfaces that are
/// not virtual, saturating at `u64::MAX`.
pub fn traffic_totals(c: &Vec<TrafficCounter>) -> (r: (u64, u64))
    ensures
        r.0 == cap_u64(traffic_sum(c@, c@.len() as int, true)),
        r.1 == cap_u64(traffic_sum(c@, c@.len() as int, false)),
{
    let mut rx: u64 = 0;
    let mut tx: u64 = 0;
    let mut i: usize = 0;
    while i < c.len()
        invariant
            i <= c.len(),
            rx == cap_u64(traffic_sum(c@, i as int, true)),
            tx == cap_u64(traffic_sum(c@, i as int, false)),
        decreases c.len() - i,
    {
        let t = &c[i];
        assert(t == c@[i as int]);
        if !is_virtual(t.name.as_str()) {
            rx = rx.saturating_add(t.rx_total);
            tx = tx.saturating_add(t.tx_total);
        }
        i = i + 1;
    }
    (rx, tx)
}

/// Turns byte counters into bytes moved since the previous sample.
pub struct NetSampler {
    last: Option<(u64, u64)>,
}

impl View for NetSampler {
    type V = Option<(u64, u64)>;

    /// The totals of the previous sample, if any.
    closed spec fn view(&self) -> Option<(u64, u64)> {
        self.last
    }
}

/// Bytes moved between totals `prev` and `cur`: none on the first sample,
/// and none when a counter went back (an interface reset).
pub open spec fn traffic_delta(prev: Option<(u64, u64)>, cur: (u64, u64)) -> (u64, u64) {
    match prev {
        Some((r, t)) => (
            if cur.0 >= r { (cur.0 - r) as u64 } else { 0 },
            if cur.1 >= t { (cur.1 - t) as u64 } else { 0 },
        ),
        None => (0, 0),
    }
}

/// A sample's traffic is what each total grew by since the previous
/// sample: `prev + delta == cur` for a counter that did not go back, 0 for
/// one that did, and nothing on the first sample.
pub proof fn lemma_traffic_delta_growth(prev: Option<(u64, u64)>, cur: (u64, u64))
    ensures
        prev is None ==> traffic_delta(prev, cur) == (0u64, 0u64),
        prev matches Some(p) ==> (p.0 <= cur.0 ==> p.0 + traffic_delta(prev, cur).0 == cur.0),
        prev matches Some(p) ==> (p.1 <= cur.1 ==> p.1 + traffic_delta(prev, cur).1 == cur.1),
        prev matches Some(p) ==> (p.0 > cur.0 ==> traffic_delta(prev, cur).0 == 0),
        prev matches Some(p) ==> (p.1 > cur.1 ==> traffic_delta(prev, cur).1 == 0),
{
}

impl NetSampler {
    /// A sampler with no previous sample.
    pub fn new() -> (s: NetSampler)
        ensures
            s@ == None::<(u64, u64)>,
    {
        NetSampler { last: None }
    }

    /// Takes the interfaces' counters and returns the bytes received and
    /// transmitted since the previous call.
    pub fn sample(&mut self, counters: &Vec<TrafficCounter>) -> (r: (u64, u64))
        ensures
            ({
                let cur = (
                    cap_u64(traffic_sum(counters@, counters@.len() as int, true)) as u64,
                    cap_u64(traffic_sum(counters@, counters@.len() as int, false)) as u64,
                );
                &&& r == traffic_delta(old(self)@, cur)
                &&& final(self)@ == Some(cur)
            }),
    {
        let cur = traffic_totals(counters);
        let r = match self.last {
            Some((rx, tx)) => (cur.0.saturating_sub(rx), cur.1.saturating_sub(tx)),
            None => (0, 0),
        };
        self.last = Some(cur);
        r
    }
}

} // verus!
