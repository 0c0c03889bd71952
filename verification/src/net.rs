//! Target-address derivation from the team number, and the network interface
//! summary published to the user interface.

use vstd::prelude::*;
use vstd::string::StringExecFns;

verus! {

/// The decimal digit character for `d`.
pub open spec fn digit_char(d: int) -> char {
    if d == 0 {
        '0'
    } else if d == 1 {
        '1'
    } else if d == 2 {
        '2'
    } else if d == 3 {
        '3'
    } else if d == 4 {
        '4'
    } else if d == 5 {
        '5'
    } else if d == 6 {
        '6'
    } else if d == 7 {
        '7'
    } else if d == 8 {
        '8'
    } else {
        '9'
    }
}

/// The decimal digits of a non-negative number, most significant first.
pub open spec fn dec_digits(n: int) -> Seq<char>
    decreases n,
{
    if n < 10 {
        seq![digit_char(n)]
    } else {
        dec_digits(n / 10) + seq![digit_char(n % 10)]
    }
}

/// One decimal digit as a string slice.
fn digit_str(d: u32) -> (r: &'static str)
    requires
        d < 10,
    ensures
        r@ == seq![digit_char(d as int)],
{
    proof {
        reveal_strlit("0");
        reveal_strlit("1");
        reveal_strlit("2");
        reveal_strlit("3");
        reveal_strlit("4");
        reveal_strlit("5");
        reveal_strlit("6");
        reveal_strlit("7");
        reveal_strlit("8");
        reveal_strlit("9");
    }
    let r = if d == 0 {
        "0"
    } else if d == 1 {
        "1"
    } else if d == 2 {
        "2"
    } else if d == 3 {
        "3"
    } else if d == 4 {
        "4"
    } else if d == 5 {
        "5"
    } else if d == 6 {
        "6"
    } else if d == 7 {
        "7"
    } else if d == 8 {
        "8"
    } else {
        "9"
    };
    proof {
        assert(r@ =~= seq![digit_char(d as int)]);
    }
    r
}

/// Append the decimal digits of `n`.
fn push_dec(s: &mut String, n: u32)
    ensures
        final(s)@ == old(s)@ + dec_digits(n as int),
    decreases n,
{
    if n < 10 {
        s.append(digit_str(n));
    } else {
        push_dec(s, n / 10);
        s.append(digit_str(n % 10));
        proof {
            assert(s@ =~= old(s)@ + dec_digits(n as int));
        }
    }
}

/// The robot controller's address for a team: `10.TE.AM.2`, or the loopback
/// address for team 0 (simulation).
pub open spec fn team_ip_chars(team: u32) -> Seq<char> {
    if team == 0 {
        "127.0.0.1"@
    } else {
        "10."@ + dec_digits(team as int / 100) + "."@ + dec_digits(team as int % 100) + ".2"@
    }
}

/// The radio's address for a team: `10.TE.AM.1`, or loopback for team 0.
pub open spec fn radio_ip_chars(team: u32) -> Seq<char> {
    if team == 0 {
        "127.0.0.1"@
    } else {
        "10."@ + dec_digits(team as int / 100) + "."@ + dec_digits(team as int % 100) + ".1"@
    }
}

/// Resolve the static target address for a team number.
pub fn team_to_ip(team: u32) -> (r: String)
    ensures
        r@ == team_ip_chars(team),
{
    if team == 0 {
        return "127.0.0.1".to_owned();
    }
    let mut s = String::new();
    s.append("10.");
    push_dec(&mut s, team / 100);
    s.append(".");
    push_dec(&mut s, team % 100);
    s.append(".2");
    proof {
        assert(s@ =~= team_ip_chars(team));
    }
    s
}

/// Derive the radio address for a team number.
pub fn team_to_radio_ip(team: u32) -> (r: String)
    ensures
        r@ == radio_ip_chars(team),
{
    if team == 0 {
        return "127.0.0.1".to_owned();
    }
    let mut s = String::new();
    s.append("10.");
    push_dec(&mut s, team / 100);
    s.append(".");
    push_dec(&mut s, team % 100);
    s.append(".1");
    proof {
        assert(s@ =~= radio_ip_chars(team));
    }
    s
}

/// Network interface details gathered by the host scan.
pub struct NetworkInfo {
    /// Some non-loopback interface has an IPv4 address.
    pub enet_link: bool,
    /// First non-loopback, non-USB IPv4 address found.
    pub enet_ip: Option<String>,
    /// A wireless interface is up with an address.
    pub wifi: bool,
    /// A USB-tethered robot controller interface (172.22.11.x) is present.
    pub usb: bool,
}

/// One local interface address, as the host scan reports it.
pub struct IfaceSample {
    pub name: String,
    pub ip: String,
    pub is_loopback: bool,
    pub is_ipv4: bool,
}

/// `p` is a prefix of `s`.
pub open spec fn has_prefix(s: Seq<u8>, p: Seq<u8>) -> bool {
    p.len() <= s.len() && s.subrange(0, p.len() as int) == p
}

/// Whether `a` starts with `p`.
fn bytes_has_prefix(a: &[u8], p: &[u8]) -> (r: bool)
    ensures
        r == has_prefix(a@, p@),
{
    let np = p.len();
    let na = a.len();
    if np > na {
        proof {
            assert(!has_prefix(a@, p@));
        }
        return false;
    }
    let mut i: usize = 0;
    while i < np
        invariant
            0 <= i <= np,
            np == p@.len(),
            np <= na == a@.len(),
            forall|j: int| 0 <= j < i ==> a@[j] == p@[j],
        decreases np - i,
    {
        if a[i] != p[i] {
            proof {
                assert(a@.subrange(0, np as int)[i as int] != p@[i as int]);
            }
            return false;
        }
        i = i + 1;
    }
    proof {
        assert(a@.subrange(0, np as int) =~= p@);
    }
    true
}

/// The UTF-8 bytes of a name or address.
pub open spec fn sbytes(s: Seq<char>) -> Seq<u8> {
    vstd::utf8::encode_utf8(s)
}

/// A non-loopback IPv4 address on the USB-tethered robot subnet.
pub open spec fn usb_sample(s: IfaceSample) -> bool {
    !s.is_loopback && s.is_ipv4 && has_prefix(sbytes(s.ip@), sbytes("172.22.11."@))
}

/// A non-loopback, non-USB IPv4 address: an Ethernet-style link.
pub open spec fn enet_sample(s: IfaceSample) -> bool {
    !s.is_loopback && s.is_ipv4 && !has_prefix(sbytes(s.ip@), sbytes("172.22.11."@))
}

/// An Ethernet-style link on an interface named like a wireless one.
pub open spec fn wifi_sample(s: IfaceSample) -> bool {
    enet_sample(s) && (sbytes(s.name@) == sbytes("en0"@) || has_prefix(
        sbytes(s.name@),
        sbytes("wlan"@),
    ) || has_prefix(sbytes(s.name@), sbytes("wlp"@)))
}

/// The first Ethernet-style sample at or past `i`.
pub open spec fn first_enet(samples: Seq<IfaceSample>, i: int) -> Option<int>
    decreases samples.len() - i,
{
    if i < 0 || i >= samples.len() {
        None
    } else if enet_sample(samples[i]) {
        Some(i)
    } else {
        first_enet(samples, i + 1)
    }
}

/// The search's find is an Ethernet-style sample past the start.
proof fn lemma_first_enet_props(samples: Seq<IfaceSample>, i0: int)
    requires
        0 <= i0,
    ensures
        first_enet(samples, i0) matches Some(k) ==> i0 <= k < samples.len() && enet_sample(
            samples[k],
        ),
    decreases samples.len() - i0,
{
    if i0 < samples.len() && !enet_sample(samples[i0]) {
        lemma_first_enet_props(samples, i0 + 1);
    }
}

/// Whether the interface name is a wireless one: `en0`, or a `wlan` or
/// `wlp` prefix.
fn is_wifi_name(name: &String) -> (r: bool)
    ensures
        r == (sbytes(name@) == sbytes("en0"@) || has_prefix(sbytes(name@), sbytes("wlan"@))
            || has_prefix(sbytes(name@), sbytes("wlp"@))),
{
    let name_bytes = name.as_str().as_bytes();
    let en0 = "en0".as_bytes();
    if name_bytes.len() == en0.len() && bytes_has_prefix(name_bytes, en0) {
        proof {
            assert(sbytes(name@) =~= sbytes("en0"@));
        }
        return true;
    }
    proof {
        if sbytes(name@) == sbytes("en0"@) {
            assert(name_bytes@.subrange(0, en0@.len() as int) =~= en0@);
        }
    }
    bytes_has_prefix(name_bytes, "wlan".as_bytes()) || bytes_has_prefix(
        name_bytes,
        "wlp".as_bytes(),
    )
}

/// Summarize the host's interfaces: link present, the first usable address,
/// wireless and USB-tether detection.
pub fn classify_interfaces(samples: &Vec<IfaceSample>) -> (r: NetworkInfo)
    ensures
        r.usb == (exists|i: int|
            0 <= i < samples@.len() && usb_sample(#[trigger] samples@[i])),
        r.enet_link == (exists|i: int|
            0 <= i < samples@.len() && enet_sample(#[trigger] samples@[i])),
        r.wifi == (exists|i: int|
            0 <= i < samples@.len() && wifi_sample(#[trigger] samples@[i])),
        (match first_enet(samples@, 0) {
            Some(k) => r.enet_ip matches Some(ip) && ip@ == samples@[k].ip@,
            None => r.enet_ip is None,
        }),
{
    let n = samples.len();
    let mut enet_link = false;
    let mut enet_ip: Option<String> = None;
    let mut wifi = false;
    let mut usb = false;

    proof {
        lemma_first_enet_props(samples@, 0);
    }
    let mut i: usize = 0;
    while i < n
        invariant
            0 <= i <= n,
            n == samples@.len(),
            usb == (exists|j: int| 0 <= j < i && usb_sample(#[trigger] samples@[j])),
            enet_link == (exists|j: int| 0 <= j < i && enet_sample(#[trigger] samples@[j])),
            wifi == (exists|j: int| 0 <= j < i && wifi_sample(#[trigger] samples@[j])),
            (match first_enet(samples@, 0) {
                Some(k) => (k < i ==> (enet_ip matches Some(ip) && ip@ == samples@[k].ip@)) && (k
                    >= i ==> enet_ip is None),
                None => enet_ip is None,
            }),
            first_enet(samples@, 0) is None ==> first_enet(samples@, i as int) is None,
            (enet_ip is None && first_enet(samples@, 0) is Some) ==> first_enet(samples@, 0)
                == first_enet(samples@, i as int),
        decreases n - i,
    {
        proof {
            lemma_first_enet_props(samples@, i as int);
        }
        let s = &samples[i];
        if !s.is_loopback && s.is_ipv4 {
            if bytes_has_prefix(s.ip.as_str().as_bytes(), "172.22.11.".as_bytes()) {
                usb = true;
            } else {
                enet_link = true;
                if is_wifi_name(&s.name) {
                    wifi = true;
                }
                if enet_ip.is_none() {
                    enet_ip = Some(s.ip.clone());
                }
            }
        }
        i = i + 1;
    }
    NetworkInfo { enet_link, enet_ip, wifi, usb }
}

} // verus!
