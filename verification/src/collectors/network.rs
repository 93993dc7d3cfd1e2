//! Network interfaces as the diagnostics print them.
use vstd::prelude::*;

use crate::text::{dec, push_decimal, push_str, string_of};

verus! {

/// What the interface list reads of an interface: its name, its MAC
/// address as text, its IPv4 addresses as text, and its MTU.
pub struct NetInterface {
    pub name: String,
    pub mac: Option<String>,
    pub ipv4: Vec<String>,
    pub mtu: Option<u32>,
}

/// The items joined with `", "` between them.
pub open spec fn comma_joined(items: Seq<Seq<char>>) -> Seq<char>
    decreases items.len(),
{
    if items.len() == 0 {
        Seq::empty()
    } else if items.len() == 1 {
        items[0]
    } else {
        comma_joined(items.drop_last()) + ", "@ + items.last()
    }
}

/// The text of a list of strings.
pub open spec fn string_texts(v: Seq<String>) -> Seq<Seq<char>> {
    Seq::new(v.len(), |i: int| v[i]@)
}

/// The MAC address, or `N/A`.
pub open spec fn mac_text(i: NetInterface) -> Seq<char> {
    match i.mac {
        Some(m) => m@,
        None => "N/A"@,
    }
}

/// The MTU in decimal, or `N/A`.
pub open spec fn mtu_text(i: NetInterface) -> Seq<char> {
    match i.mtu {
        Some(m) => dec(m as nat),
        None => "N/A"@,
    }
}

/// The IPv4 addresses joined by `", "`; no line where there are none.
pub open spec fn ipv4_text(i: NetInterface) -> Option<Seq<char>> {
    if i.ipv4.len() == 0 {
        None
    } else {
        Some(comma_joined(string_texts(i.ipv4@)))
    }
}

/// The three fields of the interface block: MAC, IPv4 addresses (if any),
/// MTU.
pub fn interface_fields(i: &NetInterface) -> (r: (String, Option<String>, String))
    ensures
        r.0@ == mac_text(*i),
        (match r.1 {
            Some(s) => Some(s@),
            None => None,
        }) == ipv4_text(*i),
        r.2@ == mtu_text(*i),
{
    let mac = match &i.mac {
        Some(m) => m.clone(),
        None => "N/A".to_owned(),
    };
    proof {
        if i.mac is Some {
            assert(mac@ == i.mac->0@);
        }
    }
    let ips = if i.ipv4.len() == 0 {
        None
    } else {
        let mut out: Vec<char> = Vec::new();
        let ghost items = string_texts(i.ipv4@);
        push_str(&mut out, i.ipv4[0].as_str());
        let mut k: usize = 1;
        proof {
            assert(items.take(1).len() == 1);
            assert(comma_joined(items.take(1)) == items[0]);
        }
        while k < i.ipv4.len()
            invariant
                1 <= k <= i.ipv4.len(),
                items == string_texts(i.ipv4@),
                out@ == comma_joined(items.take(k as int)),
            decreases i.ipv4.len() - k,
        {
            push_str(&mut out, ", ");
            push_str(&mut out, i.ipv4[k].as_str());
            proof {
                assert(items.take(k + 1).drop_last() =~= items.take(k as int));
                assert(items.take(k + 1).last() == i.ipv4[k as int]@);
            }
            k = k + 1;
        }
        proof {
            assert(items.take(i.ipv4.len() as int) =~= items);
        }
        Some(string_of(&out))
    };
    let mut m: Vec<char> = Vec::new();
    match i.mtu {
        Some(n) => push_decimal(&mut m, n as u128),
        None => push_str(&mut m, "N/A"),
    }
    (mac, ips, string_of(&m))
}

} // verus!
