//! Device addresses: an IPv4 address and a TCP port, the registry key.
//! An address is exactly reproducible from its `ip:port` string form.
use vstd::prelude::*;
use vstd::string::*;

use crate::text::{
    all_digits, dec_str, dec_val, is_octet_str, is_u16_str, lemma_dec_str_props,
    lemma_digits_not_sep, lemma_split_concat, lemma_split_none, no_char, parse_octet, split_fields,
    split_on, u16_to_string,
};

verus! {

/// An IPv4 address as four octets.
#[derive(PartialEq, Eq, Structural, Clone, Copy, Debug, Hash)]
pub struct IpV4 {
    pub a: u8,
    pub b: u8,
    pub c: u8,
    pub d: u8,
}

/// A registered device's network address.
#[derive(PartialEq, Eq, Structural, Clone, Copy, Debug, Hash)]
pub struct DeviceAddress {
    pub ip: IpV4,
    pub port: u16,
}

/// Dotted-quad rendering of an IPv4 address.
pub open spec fn ip_str(ip: IpV4) -> Seq<char> {
    dec_str(ip.a as nat) + seq!['.'] + dec_str(ip.b as nat) + seq!['.'] + dec_str(ip.c as nat)
        + seq!['.'] + dec_str(ip.d as nat)
}

/// `ip:port` rendering, as the `devices` listing shows an address.
pub open spec fn addr_str(d: DeviceAddress) -> Seq<char> {
    ip_str(d.ip) + seq![':'] + dec_str(d.port as nat)
}

/// A dotted-quad IPv4 string: four '.'-separated decimal octets.
pub open spec fn is_ip_str(s: Seq<char>) -> bool {
    let ps = split_on(s, '.');
    ps.len() == 4 && is_octet_str(ps[0]) && is_octet_str(ps[1]) && is_octet_str(ps[2])
        && is_octet_str(ps[3])
}

/// The address a dotted-quad string denotes.
pub open spec fn ip_of_str(s: Seq<char>) -> IpV4 {
    let ps = split_on(s, '.');
    IpV4 {
        a: dec_val(ps[0]) as u8,
        b: dec_val(ps[1]) as u8,
        c: dec_val(ps[2]) as u8,
        d: dec_val(ps[3]) as u8,
    }
}

/// Parses a dotted-quad IPv4 address.
pub fn parse_ip(s: &str) -> (r: Option<IpV4>)
    ensures
        r is Some <==> is_ip_str(s@),
        r matches Some(ip) ==> ip == ip_of_str(s@),
{
    let parts = split_fields(s, '.');
    proof {
        assert(parts.deep_view().len() == parts@.len());
    }
    if parts.len() != 4 {
        return None;
    }
    proof {
        assert forall|i: int| 0 <= i < 4 implies parts@[i]@ == #[trigger] split_on(s@, '.')[i] by {
            assert(parts.deep_view()[i] == parts@[i]@);
        }
    }
    let a = match parse_octet(parts[0].as_str()) {
        None => {
            return None;
        },
        Some(v) => v,
    };
    let b = match parse_octet(parts[1].as_str()) {
        None => {
            return None;
        },
        Some(v) => v,
    };
    let c = match parse_octet(parts[2].as_str()) {
        None => {
            return None;
        },
        Some(v) => v,
    };
    let d = match parse_octet(parts[3].as_str()) {
        None => {
            return None;
        },
        Some(v) => v,
    };
    Some(IpV4 { a, b, c, d })
}

/// Renders an IPv4 address in dotted-quad form.
pub fn format_ip(ip: &IpV4) -> (r: String)
    ensures
        r@ == ip_str(*ip),
{
    proof {
        reveal_strlit(".");
    }
    let mut s = u16_to_string(ip.a as u16);
    s.append(".");
    s.append(u16_to_string(ip.b as u16).as_str());
    s.append(".");
    s.append(u16_to_string(ip.c as u16).as_str());
    s.append(".");
    s.append(u16_to_string(ip.d as u16).as_str());
    proof {
        assert(s@ =~= ip_str(*ip));
    }
    s
}

/// Renders an address in its `ip:port` form.
pub fn format_addr(d: &DeviceAddress) -> (r: String)
    ensures
        r@ == addr_str(*d),
{
    proof {
        reveal_strlit(":");
    }
    let mut s = format_ip(&d.ip);
    s.append(":");
    s.append(u16_to_string(d.port).as_str());
    proof {
        assert(s@ =~= addr_str(*d));
    }
    s
}

/// The dotted-quad rendering of an address is a valid IPv4 string that
/// denotes that address again, and it contains no colon.
pub proof fn lemma_ip_str_valid(ip: IpV4)
    ensures
        is_ip_str(ip_str(ip)),
        ip_of_str(ip_str(ip)) == ip,
        no_char(ip_str(ip), ':'),
{
    let sa = dec_str(ip.a as nat);
    let sb = dec_str(ip.b as nat);
    let sc = dec_str(ip.c as nat);
    let sd = dec_str(ip.d as nat);
    lemma_dec_str_props(ip.a as nat);
    lemma_dec_str_props(ip.b as nat);
    lemma_dec_str_props(ip.c as nat);
    lemma_dec_str_props(ip.d as nat);
    lemma_digits_not_sep(sa);
    lemma_digits_not_sep(sb);
    lemma_digits_not_sep(sc);
    lemma_digits_not_sep(sd);
    let s = ip_str(ip);
    assert(s =~= sa + seq!['.'] + (sb + seq!['.'] + (sc + seq!['.'] + sd)));
    lemma_split_concat(sa, sb + seq!['.'] + (sc + seq!['.'] + sd), '.');
    lemma_split_concat(sb, sc + seq!['.'] + sd, '.');
    lemma_split_concat(sc, sd, '.');
    lemma_split_none(sd, '.');
    assert(split_on(s, '.') =~= seq![sa, sb, sc, sd]);
    assert forall|i: int| 0 <= i < s.len() implies #[trigger] s[i] != ':' by {
        assert(s =~= sa + seq!['.'] + sb + seq!['.'] + sc + seq!['.'] + sd);
    }
}

/// The `ip:port` rendering splits back into its IP part and its port part,
/// both of which denote the address again.
pub proof fn lemma_addr_str_fields(d: DeviceAddress)
    ensures
        split_on(addr_str(d), ':') == seq![ip_str(d.ip), dec_str(d.port as nat)],
        is_ip_str(ip_str(d.ip)),
        ip_of_str(ip_str(d.ip)) == d.ip,
        is_u16_str(dec_str(d.port as nat)),
        dec_val(dec_str(d.port as nat)) == d.port,
{
    lemma_ip_str_valid(d.ip);
    lemma_dec_str_props(d.port as nat);
    lemma_digits_not_sep(dec_str(d.port as nat));
    lemma_split_concat(ip_str(d.ip), dec_str(d.port as nat), ':');
    lemma_split_none(dec_str(d.port as nat), ':');
    assert(split_on(addr_str(d), ':') =~= seq![ip_str(d.ip), dec_str(d.port as nat)]);
}

} // verus!
