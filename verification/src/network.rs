use vstd::prelude::*;
use vstd::string::StrSliceExecFns;
use crate::text::{ascii_lower, copy_str, str_eq, to_ascii_lowercase, trim, trim_string};

verus! {

/// An IP address as its octets (IPv4) or its eight 16-bit segments (IPv6).
#[derive(Clone, Copy, Debug, PartialEq, Eq)]
pub enum IpAddress {
    V4([u8; 4]),
    V6([u16; 8]),
}

/// The loopback range 127.0.0.0/8, the RFC 1918 private ranges and the
/// link-local range 169.254.0.0/16.
pub open spec fn spec_ipv4_is_private_scope(o: [u8; 4]) -> bool {
    let a = o@[0];
    let b = o@[1];
    ||| a == 127
    ||| a == 10
    ||| (a == 172 && 16 <= b && b <= 31)
    ||| (a == 192 && b == 168)
    ||| (a == 169 && b == 254)
}

/// `::1`, the unique local range fc00::/7 and the unicast link-local range fe80::/10.
pub open spec fn spec_ipv6_is_private_scope(s: [u16; 8]) -> bool {
    let is_loopback = s@[0] == 0 && s@[1] == 0 && s@[2] == 0 && s@[3] == 0 && s@[4] == 0
        && s@[5] == 0 && s@[6] == 0 && s@[7] == 1;
    ||| is_loopback
    ||| (s@[0] & 0xfe00u16) == 0xfc00u16
    ||| (s@[0] & 0xffc0u16) == 0xfe80u16
}

pub open spec fn spec_is_private_network_ip(ip: IpAddress) -> bool {
    match ip {
        IpAddress::V4(o) => spec_ipv4_is_private_scope(o),
        IpAddress::V6(s) => spec_ipv6_is_private_scope(s),
    }
}

/// Whether an address lies in a loopback, private or link-local network.
pub fn is_private_network_ip(ip: IpAddress) -> (r: bool)
    ensures
        r == spec_is_private_network_ip(ip),
{
    match ip {
        IpAddress::V4(o) => {
            let a = o[0];
            let b = o[1];
            a == 127 || a == 10 || (a == 172 && 16 <= b && b <= 31) || (a == 192 && b == 168)
                || (a == 169 && b == 254)
        },
        IpAddress::V6(s) => {
            let is_loopback = s[0] == 0 && s[1] == 0 && s[2] == 0 && s[3] == 0 && s[4] == 0
                && s[5] == 0 && s[6] == 0 && s[7] == 1;
            is_loopback || (s[0] & 0xfe00u16) == 0xfc00u16 || (s[0] & 0xffc0u16) == 0xfe80u16
        },
    }
}


/// Which remote addresses the server answers.
#[derive(Clone, Copy, Debug, PartialEq, Eq, Structural)]
pub enum AccessScope {
    Private,
    Unrestricted,
}

pub open spec fn is_private_scope_word(w: Seq<char>) -> bool {
    w.len() == 0 || w == "private"@ || w == "lan"@ || w == "intranet"@ || w == "internal"@
}

pub open spec fn is_unrestricted_scope_word(w: Seq<char>) -> bool {
    w == "unrestricted"@ || w == "public"@ || w == "any"@ || w == "all"@ || w == "open"@
}

impl AccessScope {
    /// The scope a configuration value names, trimmed and lowercased; any word
    /// that names no scope falls back to `Private`.
    pub open spec fn spec_from_env_value(value: Seq<char>) -> AccessScope {
        let w = ascii_lower(trim(value));
        if is_unrestricted_scope_word(w) && !is_private_scope_word(w) {
            AccessScope::Unrestricted
        } else {
            AccessScope::Private
        }
    }

    pub fn from_env_value(value: &str) -> (r: AccessScope)
        ensures
            r == AccessScope::spec_from_env_value(value@),
    {
        let t = trim_string(value);
        let l = to_ascii_lowercase(t.as_str());
        let w = l.as_str();
        if w.unicode_len() == 0 || str_eq(w, "private") || str_eq(w, "lan") || str_eq(w, "intranet")
            || str_eq(w, "internal") {
            AccessScope::Private
        } else if str_eq(w, "unrestricted") || str_eq(w, "public") || str_eq(w, "any") || str_eq(
            w,
            "all",
        ) || str_eq(w, "open") {
            AccessScope::Unrestricted
        } else {
            AccessScope::Private
        }
    }

    pub open spec fn spec_as_str(self) -> Seq<char> {
        match self {
            AccessScope::Private => "private"@,
            AccessScope::Unrestricted => "unrestricted"@,
        }
    }

    pub fn as_str(self) -> (r: &'static str)
        ensures
            r@ == self.spec_as_str(),
    {
        match self {
            AccessScope::Private => "private",
            AccessScope::Unrestricted => "unrestricted",
        }
    }

    /// Whether a client at `ip` may use the server.
    pub open spec fn spec_allows(self, ip: IpAddress) -> bool {
        match self {
            AccessScope::Private => spec_is_private_network_ip(ip),
            AccessScope::Unrestricted => true,
        }
    }

    pub fn allows(self, ip: IpAddress) -> (r: bool)
        ensures
            r == self.spec_allows(ip),
    {
        match self {
            AccessScope::Private => is_private_network_ip(ip),
            AccessScope::Unrestricted => true,
        }
    }
}

} // verus!
