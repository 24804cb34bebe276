//! The persisted key/value store and port discovery.
//!
//! The store is a single JSON object with four fields: the two active
//! fragment selections, the system-proxy enable flag, and the auto-launch
//! flag. It is fully rewritten on every mutation and read once at startup; a
//! missing or corrupt store falls back to built-in defaults rather than
//! failing. Port discovery scans a preset inbound fragment for the first
//! entry whose protocol is `"http"` and the first whose protocol is
//! `"socks"`.

use vstd::prelude::*;
use vstd::string::*;
use crate::codec::{
    spec_str_body, spec_unescape, spec_skip_ws, spec_match_at, spec_parse_string, spec_parse_bool, spec_parse_u16,
    spec_skip_value, lemma_skip_ws_bounds, lemma_parse_string_advances,
    lemma_parse_bool_advances, lemma_parse_u16_advances, lemma_skip_value_advances, skip_ws,
    match_at, parse_string, parse_bool, parse_u16, skip_value,
};

verus! {

/// Mathematical value of the persisted store.
pub ghost struct UserConfigView {
    pub active_routing: Seq<char>,
    pub active_outbound: Seq<char>,
    pub sys_port_enable: bool,
    pub auto_launch_enable: bool,
}

/// The persisted store: which fragments are selected and which features are
/// enabled.
pub struct UserConfigValue {
    pub active_routing: String,
    pub active_outbound: String,
    pub sys_port_enable: bool,
    pub auto_launch_enable: bool,
}

impl View for UserConfigValue {
    type V = UserConfigView;

    open spec fn view(&self) -> UserConfigView {
        UserConfigView {
            active_routing: self.active_routing@,
            active_outbound: self.active_outbound@,
            sys_port_enable: self.sys_port_enable,
            auto_launch_enable: self.auto_launch_enable,
        }
    }
}

/// The defaults used on first run and whenever the store cannot be read:
/// no fragment selected, system proxy on, auto-launch on.
pub open spec fn spec_default_user_config() -> UserConfigView {
    UserConfigView {
        active_routing: Seq::empty(),
        active_outbound: Seq::empty(),
        sys_port_enable: true,
        auto_launch_enable: true,
    }
}

/// A listening-port pair discovered from the preset inbound fragment.
/// Absence of a port means the corresponding proxy mode is unavailable and
/// operations that need it must fail explicitly.
#[derive(Clone, Copy, Debug)]
pub struct PortConfig {
    pub http_port: Option<u16>,
    pub socks_port: Option<u16>,
}

// ------------------------------------------------------------------
// Store grammar.
// ------------------------------------------------------------------

/// Members of the store object, starting at `i` (just after `{` or after a
/// previous member). `first` tells whether a separating comma is still owed;
/// the four accumulators hold the fields seen so far. Each of the four keys
/// must appear exactly once, in any order; an unknown or repeated key rejects
/// the document.
pub open spec fn spec_user_members(
    s: Seq<char>,
    i: nat,
    first: bool,
    racc: Option<Seq<char>>,
    oacc: Option<Seq<char>>,
    seacc: Option<bool>,
    alacc: Option<bool>,
) -> Option<(UserConfigView, nat)>
    decreases s.len() - i,
    via spec_user_members_decreases
{
    let i1 = spec_skip_ws(s, i);
    if i1 >= s.len() {
        None
    } else if s[i1 as int] == '}' {
        match (racc, oacc, seacc, alacc) {
            (Some(rv), Some(ov), Some(sev), Some(alv)) => Some(
                (
                    UserConfigView {
                        active_routing: rv,
                        active_outbound: ov,
                        sys_port_enable: sev,
                        auto_launch_enable: alv,
                    },
                    i1 + 1,
                ),
            ),
            _ => None,
        }
    } else if !first && s[i1 as int] != ',' {
        None
    } else {
        let i2 = if first {
            i1
        } else {
            spec_skip_ws(s, i1 + 1)
        };
        match spec_parse_string(s, i2) {
            None => None,
            Some((k, i3)) => {
                let i4 = spec_skip_ws(s, i3);
                if i4 >= s.len() || s[i4 as int] != ':' {
                    None
                } else {
                    let i5 = spec_skip_ws(s, i4 + 1);
                    if k == "active_routing"@ {
                        if racc is Some {
                            None
                        } else {
                            match spec_parse_string(s, i5) {
                                None => None,
                                Some((v, i6)) => spec_user_members(
                                    s,
                                    i6,
                                    false,
                                    Some(v),
                                    oacc,
                                    seacc,
                                    alacc,
                                ),
                            }
                        }
                    } else if k == "active_outbound"@ {
                        if oacc is Some {
                            None
                        } else {
                            match spec_parse_string(s, i5) {
                                None => None,
                                Some((v, i6)) => spec_user_members(
                                    s,
                                    i6,
                                    false,
                                    racc,
                                    Some(v),
                                    seacc,
                                    alacc,
                                ),
                            }
                        }
                    } else if k == "sys_port_enable"@ {
                        if seacc is Some {
                            None
                        } else {
                            match spec_parse_bool(s, i5) {
                                None => None,
                                Some((v, i6)) => spec_user_members(
                                    s,
                                    i6,
                                    false,
                                    racc,
                                    oacc,
                                    Some(v),
                                    alacc,
                                ),
                            }
                        }
                    } else if k == "auto_launch_enable"@ {
                        if alacc is Some {
                            None
                        } else {
                            match spec_parse_bool(s, i5) {
                                None => None,
                                Some((v, i6)) => spec_user_members(
                                    s,
                                    i6,
                                    false,
                                    racc,
                                    oacc,
                                    seacc,
                                    Some(v),
                                ),
                            }
                        }
                    } else {
                        None
                    }
                }
            },
        }
    }
}

#[via_fn]
proof fn spec_user_members_decreases(
    s: Seq<char>,
    i: nat,
    first: bool,
    racc: Option<Seq<char>>,
    oacc: Option<Seq<char>>,
    seacc: Option<bool>,
    alacc: Option<bool>,
) {
    if i <= s.len() {
        lemma_skip_ws_bounds(s, i);
    }
    let i1 = spec_skip_ws(s, i);
    if i1 < s.len() {
        lemma_skip_ws_bounds(s, i1 + 1);
        let i2 = if first {
            i1
        } else {
            spec_skip_ws(s, i1 + 1)
        };
        if i2 <= s.len() && spec_parse_string(s, i2) is Some {
            lemma_parse_string_advances(s, i2);
            let i3 = spec_parse_string(s, i2)->Some_0.1;
            lemma_skip_ws_bounds(s, i3);
            let i4 = spec_skip_ws(s, i3);
            if i4 < s.len() {
                lemma_skip_ws_bounds(s, i4 + 1);
                let i5 = spec_skip_ws(s, i4 + 1);
                if i5 <= s.len() {
                    if spec_parse_string(s, i5) is Some {
                        lemma_parse_string_advances(s, i5);
                    }
                    if spec_parse_bool(s, i5) is Some {
                        lemma_parse_bool_advances(s, i5);
                    }
                }
            }
        }
    }
}

/// The whole persisted store document: one object, nothing but whitespace
/// around it.
pub open spec fn spec_parse_user_config(s: Seq<char>) -> Option<UserConfigView> {
    let i0 = spec_skip_ws(s, 0);
    if i0 < s.len() && s[i0 as int] == '{' {
        match spec_user_members(s, i0 + 1, true, None, None, None, None) {
            Some((cfg, j)) => if spec_skip_ws(s, j) == s.len() {
                Some(cfg)
            } else {
                None
            },
            None => None,
        }
    } else {
        None
    }
}

/// Compares two strings by content.
pub fn str_eq(a: &str, b: &str) -> (r: bool)
    ensures
        r == (a@ == b@),
{
    let na = a.unicode_len();
    let nb = b.unicode_len();
    if na != nb {
        return false;
    }
    let m = match_at(a, na, 0, b);
    proof {
        if m {
            assert(a@.subrange(0, a@.len() as int) =~= a@);
        } else {
            if a@ == b@ {
                assert(a@.subrange(0, b@.len() as int) =~= b@);
            }
        }
    }
    m
}

/// Parses the store document; any deviation from the grammar rejects the
/// whole document.
pub fn parse_user_config_str(s: &str) -> (r: Option<UserConfigValue>)
    ensures
        match r {
            Some(v) => spec_parse_user_config(s@) == Some(v@),
            None => spec_parse_user_config(s@) is None,
        },
{
    let n = s.unicode_len();
    let i0 = skip_ws(s, n, 0);
    if i0 >= n || s.get_char(i0) != '{' {
        return None;
    }
    let mut cur: usize = i0 + 1;
    let mut first: bool = true;
    let mut racc: Option<String> = None;
    let mut oacc: Option<String> = None;
    let mut seacc: Option<bool> = None;
    let mut alacc: Option<bool> = None;
    loop
        invariant
            cur <= n,
            n == s@.len(),
            i0 == spec_skip_ws(s@, 0),
            i0 < n && s@[i0 as int] == '{',
            spec_user_members(s@, (i0 + 1) as nat, true, None, None, None, None)
                == spec_user_members(
                s@,
                cur as nat,
                first,
                racc.deep_view(),
                oacc.deep_view(),
                seacc,
                alacc,
            ),
        decreases n - cur,
    {
        let i1 = skip_ws(s, n, cur);
        if i1 >= n {
            return None;
        }
        let c = s.get_char(i1);
        if c == '}' {
            if racc.is_some() && oacc.is_some() && seacc.is_some() && alacc.is_some() {
                let v = UserConfigValue {
                    active_routing: racc.unwrap(),
                    active_outbound: oacc.unwrap(),
                    sys_port_enable: seacc.unwrap(),
                    auto_launch_enable: alacc.unwrap(),
                };
                let j2 = skip_ws(s, n, i1 + 1);
                if j2 == n {
                    return Some(v);
                } else {
                    return None;
                }
            } else {
                return None;
            }
        }
        if !first && c != ',' {
            return None;
        }
        let i2: usize = if first {
            i1
        } else {
            skip_ws(s, n, i1 + 1)
        };
        let kparse = parse_string(s, n, i2);
        if kparse.is_none() {
            return None;
        }
        let (k, i3) = kparse.unwrap();
        let i4 = skip_ws(s, n, i3);
        if i4 >= n || s.get_char(i4) != ':' {
            return None;
        }
        let i5 = skip_ws(s, n, i4 + 1);
        if str_eq(k.as_str(), "active_routing") {
            if racc.is_some() {
                return None;
            }
            match parse_string(s, n, i5) {
                None => {
                    return None;
                },
                Some((v, i6)) => {
                    racc = Some(v);
                    first = false;
                    cur = i6;
                },
            }
        } else if str_eq(k.as_str(), "active_outbound") {
            if oacc.is_some() {
                return None;
            }
            match parse_string(s, n, i5) {
                None => {
                    return None;
                },
                Some((v, i6)) => {
                    oacc = Some(v);
                    first = false;
                    cur = i6;
                },
            }
        } else if str_eq(k.as_str(), "sys_port_enable") {
            if seacc.is_some() {
                return None;
            }
            match parse_bool(s, n, i5) {
                None => {
                    return None;
                },
                Some((v, i6)) => {
                    seacc = Some(v);
                    first = false;
                    cur = i6;
                },
            }
        } else if str_eq(k.as_str(), "auto_launch_enable") {
            if alacc.is_some() {
                return None;
            }
            match parse_bool(s, n, i5) {
                None => {
                    return None;
                },
                Some((v, i6)) => {
                    alacc = Some(v);
                    first = false;
                    cur = i6;
                },
            }
        } else {
            return None;
        }
    }
}

// ------------------------------------------------------------------
// Port-discovery grammar.
// ------------------------------------------------------------------

/// Members of one inbound entry, starting just after `{` or after a previous
/// member. `port` must be a decimal number and `protocol` a string; each must
/// appear exactly once; members under any other key are stepped over if they
/// are scalar values.
pub open spec fn spec_inbound_members(
    s: Seq<char>,
    i: nat,
    first: bool,
    pacc: Option<u16>,
    pracc: Option<Seq<char>>,
) -> Option<((u16, Seq<char>), nat)>
    decreases s.len() - i,
    via spec_inbound_members_decreases
{
    let i1 = spec_skip_ws(s, i);
    if i1 >= s.len() {
        None
    } else if s[i1 as int] == '}' {
        match (pacc, pracc) {
            (Some(p), Some(pr)) => Some(((p, pr), i1 + 1)),
            _ => None,
        }
    } else if !first && s[i1 as int] != ',' {
        None
    } else {
        let i2 = if first {
            i1
        } else {
            spec_skip_ws(s, i1 + 1)
        };
        match spec_parse_string(s, i2) {
            None => None,
            Some((k, i3)) => {
                let i4 = spec_skip_ws(s, i3);
                if i4 >= s.len() || s[i4 as int] != ':' {
                    None
                } else {
                    let i5 = spec_skip_ws(s, i4 + 1);
                    if k == "port"@ {
                        if pacc is Some {
                            None
                        } else {
                            match spec_parse_u16(s, i5) {
                                None => None,
                                Some((v, i6)) => spec_inbound_members(s, i6, false, Some(v), pracc),
                            }
                        }
                    } else if k == "protocol"@ {
                        if pracc is Some {
                            None
                        } else {
                            match spec_parse_string(s, i5) {
                                None => None,
                                Some((v, i6)) => spec_inbound_members(s, i6, false, pacc, Some(v)),
                            }
                        }
                    } else {
                        match spec_skip_value(s, i5, s.len()) {
                            None => None,
                            Some(i6) => spec_inbound_members(s, i6, false, pacc, pracc),
                        }
                    }
                }
            },
        }
    }
}

#[via_fn]
proof fn spec_inbound_members_decreases(
    s: Seq<char>,
    i: nat,
    first: bool,
    pacc: Option<u16>,
    pracc: Option<Seq<char>>,
) {
    if i <= s.len() {
        lemma_skip_ws_bounds(s, i);
    }
    let i1 = spec_skip_ws(s, i);
    if i1 < s.len() {
        lemma_skip_ws_bounds(s, i1 + 1);
        let i2 = if first {
            i1
        } else {
            spec_skip_ws(s, i1 + 1)
        };
        if i2 <= s.len() && spec_parse_string(s, i2) is Some {
            lemma_parse_string_advances(s, i2);
            let i3 = spec_parse_string(s, i2)->Some_0.1;
            lemma_skip_ws_bounds(s, i3);
            let i4 = spec_skip_ws(s, i3);
            if i4 < s.len() {
                lemma_skip_ws_bounds(s, i4 + 1);
                let i5 = spec_skip_ws(s, i4 + 1);
                if i5 <= s.len() {
                    if spec_parse_string(s, i5) is Some {
                        lemma_parse_string_advances(s, i5);
                    }
                    if spec_parse_u16(s, i5) is Some {
                        lemma_parse_u16_advances(s, i5);
                    }
                    if spec_skip_value(s, i5, s.len()) is Some {
                        lemma_skip_value_advances(s, i5, s.len());
                    }
                }
            }
        }
    }
}

/// One inbound entry: an object giving a port and a protocol.
pub open spec fn spec_parse_inbound_entry(s: Seq<char>, i: nat) -> Option<((u16, Seq<char>), nat)> {
    if i < s.len() && s[i as int] == '{' {
        spec_inbound_members(s, i + 1, true, None, None)
    } else {
        None
    }
}

proof fn lemma_inbound_members_advances(
    s: Seq<char>,
    i: nat,
    first: bool,
    pacc: Option<u16>,
    pracc: Option<Seq<char>>,
)
    requires
        i <= s.len(),
        spec_inbound_members(s, i, first, pacc, pracc) is Some,
    ensures
        i < spec_inbound_members(s, i, first, pacc, pracc)->Some_0.1 <= s.len(),
    decreases s.len() - i,
{
    lemma_skip_ws_bounds(s, i);
    let i1 = spec_skip_ws(s, i);
    if i1 < s.len() && s[i1 as int] != '}' && (first || s[i1 as int] == ',') {
        lemma_skip_ws_bounds(s, i1 + 1);
        let i2 = if first {
            i1
        } else {
            spec_skip_ws(s, i1 + 1)
        };
        if spec_parse_string(s, i2) is Some {
            lemma_parse_string_advances(s, i2);
            let (k, i3) = spec_parse_string(s, i2)->Some_0;
            lemma_skip_ws_bounds(s, i3);
            let i4 = spec_skip_ws(s, i3);
            if i4 < s.len() && s[i4 as int] == ':' {
                lemma_skip_ws_bounds(s, i4 + 1);
                let i5 = spec_skip_ws(s, i4 + 1);
                if k == "port"@ {
                    if spec_parse_u16(s, i5) is Some {
                        lemma_parse_u16_advances(s, i5);
                        let i6 = spec_parse_u16(s, i5)->Some_0.1;
                        lemma_inbound_members_advances(s, i6, false, Some(
                            spec_parse_u16(s, i5)->Some_0.0,
                        ), pracc);
                    }
                } else if k == "protocol"@ {
                    if spec_parse_string(s, i5) is Some {
                        lemma_parse_string_advances(s, i5);
                        let i6 = spec_parse_string(s, i5)->Some_0.1;
                        lemma_inbound_members_advances(s, i6, false, pacc, Some(
                            spec_parse_string(s, i5)->Some_0.0,
                        ));
                    }
                } else {
                    if spec_skip_value(s, i5, s.len()) is Some {
                        lemma_skip_value_advances(s, i5, s.len());
                        let i6 = spec_skip_value(s, i5, s.len())->Some_0;
                        lemma_inbound_members_advances(s, i6, false, pacc, pracc);
                    }
                }
            }
        }
    }
}

proof fn lemma_parse_inbound_entry_advances(s: Seq<char>, i: nat)
    requires
        i <= s.len(),
        spec_parse_inbound_entry(s, i) is Some,
    ensures
        i < spec_parse_inbound_entry(s, i)->Some_0.1 <= s.len(),
{
    lemma_inbound_members_advances(s, i + 1, true, None, None);
}

/// Elements of the inbound array, starting just after `[` or after a
/// previous element; `acc` holds the entries already read, in order.
pub open spec fn spec_inbound_elems(s: Seq<char>, i: nat, first: bool, acc: Seq<(u16, Seq<char>)>) -> Option<
    (Seq<(u16, Seq<char>)>, nat),
>
    decreases s.len() - i,
    via spec_inbound_elems_decreases
{
    let i1 = spec_skip_ws(s, i);
    if i1 >= s.len() {
        None
    } else if s[i1 as int] == ']' {
        Some((acc, i1 + 1))
    } else if !first && s[i1 as int] != ',' {
        None
    } else {
        let i2 = if first {
            i1
        } else {
            spec_skip_ws(s, i1 + 1)
        };
        match spec_parse_inbound_entry(s, i2) {
            None => None,
            Some((e, i3)) => spec_inbound_elems(s, i3, false, acc.push(e)),
        }
    }
}

#[via_fn]
proof fn spec_inbound_elems_decreases(s: Seq<char>, i: nat, first: bool, acc: Seq<(u16, Seq<char>)>) {
    if i <= s.len() {
        lemma_skip_ws_bounds(s, i);
    }
    let i1 = spec_skip_ws(s, i);
    if i1 < s.len() {
        lemma_skip_ws_bounds(s, i1 + 1);
        let i2 = if first {
            i1
        } else {
            spec_skip_ws(s, i1 + 1)
        };
        if i2 <= s.len() && spec_parse_inbound_entry(s, i2) is Some {
            lemma_parse_inbound_entry_advances(s, i2);
        }
    }
}

proof fn lemma_inbound_elems_advances(s: Seq<char>, i: nat, first: bool, acc: Seq<(u16, Seq<char>)>)
    requires
        i <= s.len(),
        spec_inbound_elems(s, i, first, acc) is Some,
    ensures
        i < spec_inbound_elems(s, i, first, acc)->Some_0.1 <= s.len(),
    decreases s.len() - i,
{
    lemma_skip_ws_bounds(s, i);
    let i1 = spec_skip_ws(s, i);
    if i1 < s.len() && s[i1 as int] != ']' && (first || s[i1 as int] == ',') {
        lemma_skip_ws_bounds(s, i1 + 1);
        let i2 = if first {
            i1
        } else {
            spec_skip_ws(s, i1 + 1)
        };
        if spec_parse_inbound_entry(s, i2) is Some {
            lemma_parse_inbound_entry_advances(s, i2);
            let (e, i3) = spec_parse_inbound_entry(s, i2)->Some_0;
            lemma_inbound_elems_advances(s, i3, false, acc.push(e));
        }
    }
}

/// The inbound array value.
pub open spec fn spec_parse_inbound_array(s: Seq<char>, i: nat) -> Option<(Seq<(u16, Seq<char>)>, nat)> {
    if i < s.len() && s[i as int] == '[' {
        spec_inbound_elems(s, i + 1, true, Seq::empty())
    } else {
        None
    }
}

/// Members of the fragment's top-level object: the member under `inbounds`
/// is the entry array and must appear exactly once; members under any other
/// key are stepped over whatever their shape.
pub open spec fn spec_port_file_members(
    s: Seq<char>,
    i: nat,
    first: bool,
    found: Option<Seq<(u16, Seq<char>)>>,
) -> Option<(Seq<(u16, Seq<char>)>, nat)>
    decreases s.len() - i,
    via spec_port_file_members_decreases
{
    let i1 = spec_skip_ws(s, i);
    if i1 >= s.len() {
        None
    } else if s[i1 as int] == '}' {
        match found {
            Some(l) => Some((l, i1 + 1)),
            None => None,
        }
    } else if !first && s[i1 as int] != ',' {
        None
    } else {
        let i2 = if first {
            i1
        } else {
            spec_skip_ws(s, i1 + 1)
        };
        match spec_parse_string(s, i2) {
            None => None,
            Some((k, i3)) => {
                let i4 = spec_skip_ws(s, i3);
                if i4 >= s.len() || s[i4 as int] != ':' {
                    None
                } else {
                    let i5 = spec_skip_ws(s, i4 + 1);
                    if k == "inbounds"@ {
                        if found is Some {
                            None
                        } else {
                            match spec_parse_inbound_array(s, i5) {
                                None => None,
                                Some((l, i6)) => spec_port_file_members(s, i6, false, Some(l)),
                            }
                        }
                    } else {
                        match spec_skip_value(s, i5, s.len()) {
                            None => None,
                            Some(i6) => spec_port_file_members(s, i6, false, found),
                        }
                    }
                }
            },
        }
    }
}

#[via_fn]
proof fn spec_port_file_members_decreases(
    s: Seq<char>,
    i: nat,
    first: bool,
    found: Option<Seq<(u16, Seq<char>)>>,
) {
    if i <= s.len() {
        lemma_skip_ws_bounds(s, i);
    }
    let i1 = spec_skip_ws(s, i);
    if i1 < s.len() {
        lemma_skip_ws_bounds(s, i1 + 1);
        let i2 = if first {
            i1
        } else {
            spec_skip_ws(s, i1 + 1)
        };
        if i2 <= s.len() && spec_parse_string(s, i2) is Some {
            lemma_parse_string_advances(s, i2);
            let i3 = spec_parse_string(s, i2)->Some_0.1;
            lemma_skip_ws_bounds(s, i3);
            let i4 = spec_skip_ws(s, i3);
            if i4 < s.len() {
                lemma_skip_ws_bounds(s, i4 + 1);
                let i5 = spec_skip_ws(s, i4 + 1);
                if i5 <= s.len() {
                    if i5 < s.len() && s[i5 as int] == '[' && spec_inbound_elems(
                        s,
                        i5 + 1,
                        true,
                        Seq::empty(),
                    ) is Some {
                        lemma_inbound_elems_advances(s, i5 + 1, true, Seq::empty());
                    }
                    if spec_skip_value(s, i5, s.len()) is Some {
                        lemma_skip_value_advances(s, i5, s.len());
                    }
                }
            }
        }
    }
}

/// The whole port-discovery fragment: one object, nothing but whitespace
/// around it, holding the inbound entry list.
pub open spec fn spec_parse_port_file(s: Seq<char>) -> Option<Seq<(u16, Seq<char>)>> {
    let i0 = spec_skip_ws(s, 0);
    if i0 < s.len() && s[i0 as int] == '{' {
        match spec_port_file_members(s, i0 + 1, true, None) {
            Some((l, j)) => if spec_skip_ws(s, j) == s.len() {
                Some(l)
            } else {
                None
            },
            None => None,
        }
    } else {
        None
    }
}

/// The port binding denoted by the port-discovery fragment's content: the
/// first `"http"` entry's port and the first `"socks"` entry's port, or an
/// empty binding when the content is absent or unparsable.
pub open spec fn spec_discovered_ports(c: Option<Seq<char>>) -> (Option<u16>, Option<u16>) {
    match c {
        Some(t) => match spec_parse_port_file(t) {
            Some(l) => (spec_first_port(l, "http"@), spec_first_port(l, "socks"@)),
            None => (None, None),
        },
        None => (None, None),
    }
}

/// The port of the first entry that declares the given protocol.
pub open spec fn spec_first_port(l: Seq<(u16, Seq<char>)>, proto: Seq<char>) -> Option<u16>
    decreases l.len(),
{
    if l.len() == 0 {
        None
    } else if l[0].1 == proto {
        Some(l[0].0)
    } else {
        spec_first_port(l.skip(1), proto)
    }
}

proof fn lemma_first_port_snoc(l: Seq<(u16, Seq<char>)>, x: (u16, Seq<char>), proto: Seq<char>)
    ensures
        spec_first_port(l.push(x), proto) == match spec_first_port(l, proto) {
            Some(p) => Some(p),
            None => if x.1 == proto {
                Some(x.0)
            } else {
                None
            },
        },
    decreases l.len(),
{
    if l.len() == 0 {
        assert(l.push(x)[0] == x);
        assert(l.push(x).skip(1) =~= Seq::<(u16, Seq<char>)>::empty());
        assert(spec_first_port(Seq::<(u16, Seq<char>)>::empty(), proto) is None);
    } else {
        assert(l.push(x)[0] == l[0]);
        assert(l.push(x).skip(1) =~= l.skip(1).push(x));
        lemma_first_port_snoc(l.skip(1), x, proto);
    }
}

// ------------------------------------------------------------------
// Executable port discovery.
// ------------------------------------------------------------------

/// Parses one inbound entry.
fn parse_inbound_entry(s: &str, n: usize, i: usize) -> (r: Option<(u16, String, usize)>)
    requires
        n == s@.len(),
        i <= n,
    ensures
        match r {
            Some((p, pr, j)) => spec_parse_inbound_entry(s@, i as nat) == Some(((p, pr@), j as nat))
                && i < j <= n,
            None => spec_parse_inbound_entry(s@, i as nat) is None,
        },
{
    if i >= n || s.get_char(i) != '{' {
        return None;
    }
    let mut cur: usize = i + 1;
    let mut first: bool = true;
    let mut pacc: Option<u16> = None;
    let mut pracc: Option<String> = None;
    loop
        invariant
            cur <= n,
            n == s@.len(),
            i < n && s@[i as int] == '{',
            i < cur,
            spec_inbound_members(s@, (i + 1) as nat, true, None, None) == spec_inbound_members(
                s@,
                cur as nat,
                first,
                pacc,
                pracc.deep_view(),
            ),
        decreases n - cur,
    {
        let i1 = skip_ws(s, n, cur);
        if i1 >= n {
            return None;
        }
        let c = s.get_char(i1);
        if c == '}' {
            if pacc.is_some() && pracc.is_some() {
                return Some((pacc.unwrap(), pracc.unwrap(), i1 + 1));
            } else {
                return None;
            }
        }
        if !first && c != ',' {
            return None;
        }
        let i2: usize = if first {
            i1
        } else {
            skip_ws(s, n, i1 + 1)
        };
        let kparse = parse_string(s, n, i2);
        if kparse.is_none() {
            return None;
        }
        let (k, i3) = kparse.unwrap();
        let i4 = skip_ws(s, n, i3);
        if i4 >= n || s.get_char(i4) != ':' {
            return None;
        }
        let i5 = skip_ws(s, n, i4 + 1);
        if str_eq(k.as_str(), "port") {
            if pacc.is_some() {
                return None;
            }
            match parse_u16(s, n, i5) {
                None => {
                    return None;
                },
                Some((v, i6)) => {
                    pacc = Some(v);
                    first = false;
                    cur = i6;
                },
            }
        } else if str_eq(k.as_str(), "protocol") {
            if pracc.is_some() {
                return None;
            }
            match parse_string(s, n, i5) {
                None => {
                    return None;
                },
                Some((v, i6)) => {
                    pracc = Some(v);
                    first = false;
                    cur = i6;
                },
            }
        } else {
            match skip_value(s, n, i5, n as u64) {
                None => {
                    return None;
                },
                Some(i6) => {
                    first = false;
                    cur = i6;
                },
            }
        }
    }
}

/// Parses the inbound array while scanning it for the first entry of each
/// protocol of interest.
fn parse_inbound_array(s: &str, n: usize, i: usize) -> (r: Option<
    (PortConfig, usize, Ghost<Seq<(u16, Seq<char>)>>),
>)
    requires
        n == s@.len(),
        i <= n,
    ensures
        match r {
            Some((pc, j, l)) => spec_parse_inbound_array(s@, i as nat) == Some((l@, j as nat)) && i
                < j <= n && pc.http_port == spec_first_port(l@, "http"@) && pc.socks_port
                == spec_first_port(l@, "socks"@),
            None => spec_parse_inbound_array(s@, i as nat) is None,
        },
{
    if i >= n || s.get_char(i) != '[' {
        return None;
    }
    let mut cur: usize = i + 1;
    let mut first: bool = true;
    let mut hp: Option<u16> = None;
    let mut sp: Option<u16> = None;
    let ghost mut acc: Seq<(u16, Seq<char>)> = Seq::empty();
    loop
        invariant
            cur <= n,
            n == s@.len(),
            i < n && s@[i as int] == '[',
            i < cur,
            spec_inbound_elems(s@, (i + 1) as nat, true, Seq::empty()) == spec_inbound_elems(
                s@,
                cur as nat,
                first,
                acc,
            ),
            hp == spec_first_port(acc, "http"@),
            sp == spec_first_port(acc, "socks"@),
        decreases n - cur,
    {
        let i1 = skip_ws(s, n, cur);
        if i1 >= n {
            return None;
        }
        let c = s.get_char(i1);
        if c == ']' {
            return Some((PortConfig { http_port: hp, socks_port: sp }, i1 + 1, Ghost(acc)));
        }
        if !first && c != ',' {
            return None;
        }
        let i2: usize = if first {
            i1
        } else {
            skip_ws(s, n, i1 + 1)
        };
        match parse_inbound_entry(s, n, i2) {
            None => {
                return None;
            },
            Some((p, pr, i3)) => {
                proof {
                    lemma_first_port_snoc(acc, (p, pr@), "http"@);
                    lemma_first_port_snoc(acc, (p, pr@), "socks"@);
                }
                if hp.is_none() && str_eq(pr.as_str(), "http") {
                    hp = Some(p);
                }
                if sp.is_none() && str_eq(pr.as_str(), "socks") {
                    sp = Some(p);
                }
                proof {
                    acc = acc.push((p, pr@));
                }
                first = false;
                cur = i3;
            },
        }
    }
}

// ------------------------------------------------------------------
// Store rendering.
// ------------------------------------------------------------------

/// How one character appears inside a rendered quoted string.
pub open spec fn spec_escape_char(c: char) -> Seq<char> {
    if c == '"' {
        seq!['\\', '"']
    } else if c == '\\' {
        seq!['\\', '\\']
    } else {
        seq![c]
    }
}

/// The rendered form of a string's content.
pub open spec fn spec_escape(s: Seq<char>) -> Seq<char>
    decreases s.len(),
{
    if s.len() == 0 {
        Seq::empty()
    } else {
        spec_escape_char(s[0]) + spec_escape(s.skip(1))
    }
}

proof fn lemma_escape_snoc(t: Seq<char>, c: char)
    ensures
        spec_escape(t.push(c)) == spec_escape(t) + spec_escape_char(c),
    decreases t.len(),
{
    if t.len() == 0 {
        assert(t.push(c)[0] == c);
        assert(t.push(c).skip(1) =~= Seq::<char>::empty());
        assert(spec_escape(Seq::<char>::empty()) =~= Seq::<char>::empty());
        assert(spec_escape(t.push(c)) =~= spec_escape_char(c) + Seq::<char>::empty());
        assert(spec_escape_char(c) + Seq::<char>::empty() =~= spec_escape_char(c));
        assert(spec_escape(t) + spec_escape_char(c) =~= spec_escape_char(c));
    } else {
        assert(t.push(c)[0] == t[0]);
        assert(t.push(c).skip(1) =~= t.skip(1).push(c));
        lemma_escape_snoc(t.skip(1), c);
        assert(spec_escape_char(t[0]) + (spec_escape(t.skip(1)) + spec_escape_char(c)) =~= (
        spec_escape_char(t[0]) + spec_escape(t.skip(1))) + spec_escape_char(c));
    }
}


proof fn lemma_escape_char_values(c: char)
    ensures
        spec_escape_char(c).len() >= 1,
        c != '"' && c != '\\' ==> spec_escape_char(c) == seq![c],
        c == '"' ==> spec_escape_char(c) == seq!['\\', '"'],
        c == '\\' ==> spec_escape_char(c) == seq!['\\', '\\'],
{
}

proof fn lemma_str_body_inverts_escape(s: Seq<char>, i: nat, v: Seq<char>, acc: Seq<char>)
    requires
        i + spec_escape(v).len() + 1 <= s.len(),
        s.subrange(i as int, i + spec_escape(v).len() as int) == spec_escape(v),
        s[i + spec_escape(v).len() as int] == '"',
    ensures
        spec_str_body(s, i, acc) == Some((acc + v, i + spec_escape(v).len() + 1)),
    decreases v.len(),
{
    let m = spec_escape(v).len();
    assert forall|j: int| 0 <= j < m implies s[i + j] == #[trigger] spec_escape(v)[j] by {
        assert(s.subrange(i as int, i + m as int)[j] == spec_escape(v)[j]);
    }
    if v.len() == 0 {
        assert(spec_escape(v) =~= Seq::<char>::empty());
        assert(s[i as int] == '"');
        assert(acc + v =~= acc);
    } else {
        let c = v[0];
        let w = v.skip(1);
        let e0 = spec_escape_char(c);
        let ew = spec_escape(w);
        assert(spec_escape(v) == e0 + ew);
        lemma_escape_char_values(c);
        let k = e0.len();
        assert forall|j: int| 0 <= j < ew.len() implies s[i + k + j] == #[trigger] ew[j] by {
            assert(spec_escape(v)[k + j] == ew[j]);
            assert(s[i as int + (k + j)] == spec_escape(v)[k + j]);
        }
        assert(s.subrange((i + k) as int, i + k + ew.len() as int) =~= ew) by {
            assert(forall|j: int|
                0 <= j < ew.len() ==> #[trigger] s.subrange(
                    (i + k) as int,
                    i + k + ew.len() as int,
                )[j] == s[i + k + j]);
        }
        assert(s[(i + k + ew.len()) as int] == '"') by {
            assert(i + k + ew.len() == i + m);
        }
        if c != '"' && c != '\\' {
            assert(spec_escape(v)[0] == e0[0]);
            assert(s[i as int + 0] == spec_escape(v)[0]);
            assert(s[i as int] == c);
            lemma_str_body_inverts_escape(s, i + 1, w, acc.push(c));
            assert(spec_str_body(s, i, acc) == spec_str_body(s, i + 1, acc.push(c)));
        } else {
            assert(spec_escape(v)[0] == e0[0]);
            assert(spec_escape(v)[1] == e0[1]);
            assert(s[i as int + 0] == spec_escape(v)[0]);
            assert(s[i as int + 1] == spec_escape(v)[1]);
            assert(s[i as int] == '\\');
            assert(spec_unescape(s[i + 1 as int]) == Some(c));
            lemma_str_body_inverts_escape(s, i + 2, w, acc.push(c));
            assert(spec_str_body(s, i, acc) == spec_str_body(s, i + 2, acc.push(c)));
        }
        assert(acc.push(c) + w =~= acc + v);
    }
}

pub open spec fn spec_bool_text(b: bool) -> Seq<char> {
    if b {
        "true"@
    } else {
        "false"@
    }
}

/// The exact text written to the store file for a given state.
pub open spec fn spec_render_user_config(c: UserConfigView) -> Seq<char> {
    "{\"active_routing\":\""@ + spec_escape(c.active_routing) + "\",\"active_outbound\":\""@
        + spec_escape(c.active_outbound) + "\",\"sys_port_enable\":"@ + spec_bool_text(
        c.sys_port_enable,
    ) + ",\"auto_launch_enable\":"@ + spec_bool_text(c.auto_launch_enable) + "}"@
}

/// Appends the rendered form of `s` to `out`.
fn escape_into(out: &mut String, s: &str)
    ensures
        final(out)@ == old(out)@ + spec_escape(s@),
{
    let n = s.unicode_len();
    let mut k: usize = 0;
    while k < n
        invariant
            k <= n,
            n == s@.len(),
            out@ == old(out)@ + spec_escape(s@.take(k as int)),
        decreases n - k,
    {
        let c = s.get_char(k);
        if c == '"' {
            out.push('\\');
            out.push('"');
        } else if c == '\\' {
            out.push('\\');
            out.push('\\');
        } else {
            out.push(c);
        }
        proof {
            lemma_escape_snoc(s@.take(k as int), s@[k as int]);
            assert(s@.take(k + 1) =~= s@.take(k as int).push(s@[k as int]));
            assert(old(out)@ + spec_escape(s@.take(k as int)) + spec_escape_char(s@[k as int])
                =~= old(out)@ + (spec_escape(s@.take(k as int)) + spec_escape_char(s@[k as int])));
        }
        k = k + 1;
    }
    proof {
        assert(s@.take(n as int) =~= s@);
    }
}


proof fn lemma_escape_free_identity(v: Seq<char>)
    requires
        forall|j: int| 0 <= j < v.len() ==> v[j] != '"' && v[j] != '\\',
    ensures
        spec_escape(v) == v,
    decreases v.len(),
{
    if v.len() == 0 {
        assert(spec_escape(v) =~= v);
    } else {
        lemma_escape_free_identity(v.skip(1));
        assert(spec_escape_char(v[0]) == seq![v[0]]);
        assert(seq![v[0]] + v.skip(1) =~= v);
    }
}

/// The store's renderer and parser are inverse: the text `write_config`
/// flushes for any state is read back by `get_init_user_config`'s grammar as
/// exactly that state. A crash between intent and effect therefore never
/// loses the state: whatever full rendering last reached the disk denotes
/// the state that wrote it.
#[verifier::rlimit(100)]
#[verifier::spinoff_prover]
pub proof fn lemma_store_round_trip(c: UserConfigView)
    ensures
        spec_parse_user_config(spec_render_user_config(c)) == Some(c),
{
    reveal_strlit("{\"active_routing\":\"");
    reveal_strlit("\",\"active_outbound\":\"");
    reveal_strlit("\",\"sys_port_enable\":");
    reveal_strlit(",\"auto_launch_enable\":");
    reveal_strlit("}");
    reveal_strlit("active_routing");
    reveal_strlit("active_outbound");
    reveal_strlit("sys_port_enable");
    reveal_strlit("auto_launch_enable");
    reveal_strlit("true");
    reveal_strlit("false");
    let d = spec_render_user_config(c);
    let er = spec_escape(c.active_routing);
    let eo = spec_escape(c.active_outbound);
    let bs = spec_bool_text(c.sys_port_enable);
    let ba = spec_bool_text(c.auto_launch_enable);
    let a = er.len() as int;
    let b = eo.len() as int;
    let p = bs.len() as int;
    let q = ba.len() as int;
    let k1 = "active_routing"@;
    let k2 = "active_outbound"@;
    let k3 = "sys_port_enable"@;
    let k4 = "auto_launch_enable"@;
    assert(k1.len() == 14 && k2.len() == 15 && k3.len() == 15 && k4.len() == 18);
    assert(p == 4 || p == 5);
    assert(q == 4 || q == 5);
    assert(d.len() == 83 + a + b + p + q);

    // Escaping leaves the four keys untouched.
    assert(forall|j: int| 0 <= j < 14 ==> k1[j] != '"' && k1[j] != '\\');
    assert(forall|j: int| 0 <= j < 15 ==> k2[j] != '"' && k2[j] != '\\');
    assert(forall|j: int| 0 <= j < 15 ==> k3[j] != '"' && k3[j] != '\\');
    assert(forall|j: int| 0 <= j < 18 ==> k4[j] != '"' && k4[j] != '\\');
    lemma_escape_free_identity(k1);
    lemma_escape_free_identity(k2);
    lemma_escape_free_identity(k3);
    lemma_escape_free_identity(k4);

    // The four keys are pairwise distinct where the member dispatch asks.
    assert(k2 != k1 && k3 != k1 && k4 != k1);
    assert(k3 != k2) by {
        assert(k3[0] == 's' && k2[0] == 'a');
    }
    assert(k4 != k2 && k4 != k3);

    // First member: the routing selection.
    assert(spec_skip_ws(d, 0) == 0 && d[0] == '{');
    assert(spec_skip_ws(d, 1) == 1 && d[1] == '"');
    assert(d.subrange(2, 16) =~= k1);
    assert(d[16] == '"');
    lemma_str_body_inverts_escape(d, 2, k1, Seq::empty());
    assert(Seq::<char>::empty() + k1 =~= k1);
    assert(spec_parse_string(d, 1) == Some((k1, 17nat)));
    assert(d[17] == ':' && spec_skip_ws(d, 17) == 17);
    assert(d[18] == '"' && spec_skip_ws(d, 18) == 18);
    assert(d.subrange(19, 19 + a) =~= er);
    assert(d[19 + a] == '"');
    lemma_str_body_inverts_escape(d, 19, c.active_routing, Seq::empty());
    assert(Seq::<char>::empty() + c.active_routing =~= c.active_routing);
    assert(spec_parse_string(d, 18) == Some((c.active_routing, (20 + a) as nat)));
    assert(spec_user_members(d, 1, true, None, None, None, None) == spec_user_members(
        d,
        (20 + a) as nat,
        false,
        Some(c.active_routing),
        None,
        None,
        None,
    ));

    // Second member: the outbound selection.
    assert(d[20 + a] == ',' && spec_skip_ws(d, (20 + a) as nat) == 20 + a);
    assert(d[21 + a] == '"' && spec_skip_ws(d, (21 + a) as nat) == 21 + a);
    assert(d.subrange(22 + a, 37 + a) =~= k2);
    assert(d[37 + a] == '"');
    lemma_str_body_inverts_escape(d, (22 + a) as nat, k2, Seq::empty());
    assert(Seq::<char>::empty() + k2 =~= k2);
    assert(spec_parse_string(d, (21 + a) as nat) == Some((k2, (38 + a) as nat)));
    assert(d[38 + a] == ':' && spec_skip_ws(d, (38 + a) as nat) == 38 + a);
    assert(d[39 + a] == '"' && spec_skip_ws(d, (39 + a) as nat) == 39 + a);
    assert(d.subrange(40 + a, 40 + a + b) =~= eo);
    assert(d[40 + a + b] == '"');
    lemma_str_body_inverts_escape(d, (40 + a) as nat, c.active_outbound, Seq::empty());
    assert(Seq::<char>::empty() + c.active_outbound =~= c.active_outbound);
    assert(spec_parse_string(d, (39 + a) as nat) == Some(
        (c.active_outbound, (41 + a + b) as nat),
    ));
    assert(spec_user_members(d, (20 + a) as nat, false, Some(c.active_routing), None, None, None)
        == spec_user_members(
        d,
        (41 + a + b) as nat,
        false,
        Some(c.active_routing),
        Some(c.active_outbound),
        None,
        None,
    ));

    // Third member: the system-proxy flag.
    assert(d[41 + a + b] == ',' && spec_skip_ws(d, (41 + a + b) as nat) == 41 + a + b);
    assert(d[42 + a + b] == '"' && spec_skip_ws(d, (42 + a + b) as nat) == 42 + a + b);
    assert(d.subrange(43 + a + b, 58 + a + b) =~= k3);
    assert(d[58 + a + b] == '"');
    lemma_str_body_inverts_escape(d, (43 + a + b) as nat, k3, Seq::empty());
    assert(Seq::<char>::empty() + k3 =~= k3);
    assert(spec_parse_string(d, (42 + a + b) as nat) == Some((k3, (59 + a + b) as nat)));
    assert(d[59 + a + b] == ':' && spec_skip_ws(d, (59 + a + b) as nat) == 59 + a + b);
    assert(d.subrange(60 + a + b, 60 + a + b + p) =~= bs);
    if c.sys_port_enable {
        assert(d[60 + a + b] == 't' && spec_skip_ws(d, (60 + a + b) as nat) == 60 + a + b);
        assert(d.subrange(60 + a + b, 60 + a + b + 4) =~= "true"@);
        assert(spec_parse_bool(d, (60 + a + b) as nat) == Some((true, (60 + a + b + p) as nat)));
    } else {
        assert(d[60 + a + b] == 'f' && spec_skip_ws(d, (60 + a + b) as nat) == 60 + a + b);
        if spec_match_at(d, (60 + a + b) as nat, "true"@) {
            assert(d.subrange(60 + a + b, 60 + a + b + 4)[0] == 't');
            assert(false);
        }
        assert(d.subrange(60 + a + b, 60 + a + b + 5) =~= "false"@);
        assert(spec_parse_bool(d, (60 + a + b) as nat) == Some((false, (60 + a + b + p) as nat)));
    }
    assert(spec_user_members(
        d,
        (41 + a + b) as nat,
        false,
        Some(c.active_routing),
        Some(c.active_outbound),
        None,
        None,
    ) == spec_user_members(
        d,
        (60 + a + b + p) as nat,
        false,
        Some(c.active_routing),
        Some(c.active_outbound),
        Some(c.sys_port_enable),
        None,
    ));

    // Fourth member: the auto-launch flag.
    assert(d[60 + a + b + p] == ',' && spec_skip_ws(d, (60 + a + b + p) as nat) == 60 + a + b + p);
    assert(d[61 + a + b + p] == '"' && spec_skip_ws(d, (61 + a + b + p) as nat) == 61 + a + b + p);
    assert(d.subrange(62 + a + b + p, 80 + a + b + p) =~= k4);
    assert(d[80 + a + b + p] == '"');
    lemma_str_body_inverts_escape(d, (62 + a + b + p) as nat, k4, Seq::empty());
    assert(Seq::<char>::empty() + k4 =~= k4);
    assert(spec_parse_string(d, (61 + a + b + p) as nat) == Some((k4, (81 + a + b + p) as nat)));
    assert(d[81 + a + b + p] == ':' && spec_skip_ws(d, (81 + a + b + p) as nat) == 81 + a + b + p);
    assert(d.subrange(82 + a + b + p, 82 + a + b + p + q) =~= ba);
    if c.auto_launch_enable {
        assert(d[82 + a + b + p] == 't' && spec_skip_ws(d, (82 + a + b + p) as nat) == 82 + a + b
            + p);
        assert(d.subrange(82 + a + b + p, 82 + a + b + p + 4) =~= "true"@);
        assert(spec_parse_bool(d, (82 + a + b + p) as nat) == Some(
            (true, (82 + a + b + p + q) as nat),
        ));
    } else {
        assert(d[82 + a + b + p] == 'f' && spec_skip_ws(d, (82 + a + b + p) as nat) == 82 + a + b
            + p);
        if spec_match_at(d, (82 + a + b + p) as nat, "true"@) {
            assert(d.subrange(82 + a + b + p, 82 + a + b + p + 4)[0] == 't');
            assert(false);
        }
        assert(d.subrange(82 + a + b + p, 82 + a + b + p + 5) =~= "false"@);
        assert(spec_parse_bool(d, (82 + a + b + p) as nat) == Some(
            (false, (82 + a + b + p + q) as nat),
        ));
    }
    assert(spec_user_members(
        d,
        (60 + a + b + p) as nat,
        false,
        Some(c.active_routing),
        Some(c.active_outbound),
        Some(c.sys_port_enable),
        None,
    ) == spec_user_members(
        d,
        (82 + a + b + p + q) as nat,
        false,
        Some(c.active_routing),
        Some(c.active_outbound),
        Some(c.sys_port_enable),
        Some(c.auto_launch_enable),
    ));

    // Closing brace, and nothing but the end after it.
    assert(d[82 + a + b + p + q] == '}' && spec_skip_ws(d, (82 + a + b + p + q) as nat) == 82 + a
        + b + p + q);
    assert(spec_user_members(
        d,
        (82 + a + b + p + q) as nat,
        false,
        Some(c.active_routing),
        Some(c.active_outbound),
        Some(c.sys_port_enable),
        Some(c.auto_launch_enable),
    ) == Some(
        (
            UserConfigView {
                active_routing: c.active_routing,
                active_outbound: c.active_outbound,
                sys_port_enable: c.sys_port_enable,
                auto_launch_enable: c.auto_launch_enable,
            },
            d.len() as nat,
        ),
    ));
    assert(spec_skip_ws(d, d.len() as nat) == d.len());
    assert(UserConfigView {
        active_routing: c.active_routing,
        active_outbound: c.active_outbound,
        sys_port_enable: c.sys_port_enable,
        auto_launch_enable: c.auto_launch_enable,
    } == c);
}

// ------------------------------------------------------------------
// The store itself.
// ------------------------------------------------------------------

/// Process-wide configuration state: the active selections, feature flags
/// and the discovered port binding. Mutating calls return nothing; the
/// caller persists the rendering of `write_config` after every mutation.
pub struct IConfig {
    pub active_routing: String,
    pub active_outbound: String,
    pub sys_port_enable: bool,
    pub auto_launch_enable: bool,
    pub port_config: Option<PortConfig>,
}

impl IConfig {
    /// The part of the state that is persisted.
    pub open spec fn user_view(&self) -> UserConfigView {
        UserConfigView {
            active_routing: self.active_routing@,
            active_outbound: self.active_outbound@,
            sys_port_enable: self.sys_port_enable,
            auto_launch_enable: self.auto_launch_enable,
        }
    }

    /// Loads the store from the given file content (absent or unparsable
    /// content falls back to the defaults), and adopts the port binding
    /// discovered from the inbound fragment.
    pub fn init_config(user_content: Option<&str>, port_config: PortConfig) -> (r: IConfig)
        ensures
            r.user_view() == match user_content {
                Some(s) => match spec_parse_user_config(s@) {
                    Some(c) => c,
                    None => spec_default_user_config(),
                },
                None => spec_default_user_config(),
            },
            r.port_config == Some(port_config),
    {
        let v = IConfig::get_init_user_config(user_content);
        IConfig {
            active_routing: v.active_routing,
            active_outbound: v.active_outbound,
            sys_port_enable: v.sys_port_enable,
            auto_launch_enable: v.auto_launch_enable,
            port_config: Some(port_config),
        }
    }

    /// Reads the persisted store, falling back to the defaults when the
    /// content is absent or does not parse: a corrupt store is not fatal.
    pub fn get_init_user_config(content: Option<&str>) -> (r: UserConfigValue)
        ensures
            r@ == match content {
                Some(s) => match spec_parse_user_config(s@) {
                    Some(c) => c,
                    None => spec_default_user_config(),
                },
                None => spec_default_user_config(),
            },
    {
        let parsed: Option<UserConfigValue> = match content {
            Some(s) => parse_user_config_str(s),
            None => None,
        };
        match parsed {
            Some(v) => v,
            None => UserConfigValue {
                active_routing: String::new(),
                active_outbound: String::new(),
                sys_port_enable: true,
                auto_launch_enable: true,
            },
        }
    }

    /// Discovers the listening ports from the preset inbound fragment: the
    /// first entry declaring protocol `"http"` and the first declaring
    /// `"socks"`. Absent or unparsable content yields an empty binding, so
    /// operations needing a port fail explicitly later rather than guessing.
    #[verifier::rlimit(60)]
    pub fn get_init_port_config(content: Option<&str>) -> (r: PortConfig)
        ensures
            r.http_port == spec_discovered_ports(content.deep_view()).0,
            r.socks_port == spec_discovered_ports(content.deep_view()).1,
    {
        let s: &str = match content {
            Some(s) => s,
            None => {
                return PortConfig { http_port: None, socks_port: None };
            },
        };
        proof {
            assert(content.deep_view() == Some(s@));
        }
        let n = s.unicode_len();
        let i0 = skip_ws(s, n, 0);
        if i0 >= n || s.get_char(i0) != '{' {
            return PortConfig { http_port: None, socks_port: None };
        }
        let mut cur: usize = i0 + 1;
        let mut first: bool = true;
        let mut found: bool = false;
        let mut pc = PortConfig { http_port: None, socks_port: None };
        let ghost mut foundl: Option<Seq<(u16, Seq<char>)>> = None;
        loop
            invariant
                cur <= n,
                n == s@.len(),
                content.deep_view() == Some(s@),
                i0 == spec_skip_ws(s@, 0),
                i0 < n && s@[i0 as int] == '{',
                spec_port_file_members(s@, (i0 + 1) as nat, true, None) == spec_port_file_members(
                    s@,
                    cur as nat,
                    first,
                    foundl,
                ),
                match foundl {
                    Some(l) => found && pc.http_port == spec_first_port(l, "http"@)
                        && pc.socks_port == spec_first_port(l, "socks"@),
                    None => !found,
                },
            decreases n - cur,
        {
            let i1 = skip_ws(s, n, cur);
            if i1 >= n {
                proof {
                    assert(spec_port_file_members(s@, cur as nat, first, foundl) is None);
                    assert(spec_parse_port_file(s@) is None);
                }
                return PortConfig { http_port: None, socks_port: None };
            }
            let c = s.get_char(i1);
            if c == '}' {
                if found {
                    let j2 = skip_ws(s, n, i1 + 1);
                    if j2 == n {
                        return pc;
                    } else {
                        proof {
                            assert(spec_port_file_members(s@, cur as nat, first, foundl)
                                == Some((foundl->Some_0, (i1 + 1) as nat)));
                            assert(spec_skip_ws(s@, (i1 + 1) as nat) != s@.len());
                            assert(spec_parse_port_file(s@) is None);
                        }
                        return PortConfig { http_port: None, socks_port: None };
                    }
                } else {
                    proof {
                    assert(spec_port_file_members(s@, cur as nat, first, foundl) is None);
                    assert(spec_parse_port_file(s@) is None);
                }
                return PortConfig { http_port: None, socks_port: None };
                }
            }
            if !first && c != ',' {
                proof {
                    assert(spec_port_file_members(s@, cur as nat, first, foundl) is None);
                    assert(spec_parse_port_file(s@) is None);
                }
                return PortConfig { http_port: None, socks_port: None };
            }
            let i2: usize = if first {
                i1
            } else {
                skip_ws(s, n, i1 + 1)
            };
            let kparse = parse_string(s, n, i2);
            if kparse.is_none() {
                proof {
                    assert(spec_port_file_members(s@, cur as nat, first, foundl) is None);
                    assert(spec_parse_port_file(s@) is None);
                }
                return PortConfig { http_port: None, socks_port: None };
            }
            let (k, i3) = kparse.unwrap();
            let i4 = skip_ws(s, n, i3);
            if i4 >= n || s.get_char(i4) != ':' {
                proof {
                    assert(spec_port_file_members(s@, cur as nat, first, foundl) is None);
                    assert(spec_parse_port_file(s@) is None);
                }
                return PortConfig { http_port: None, socks_port: None };
            }
            let i5 = skip_ws(s, n, i4 + 1);
            if str_eq(k.as_str(), "inbounds") {
                if found {
                    proof {
                    assert(spec_port_file_members(s@, cur as nat, first, foundl) is None);
                    assert(spec_parse_port_file(s@) is None);
                }
                return PortConfig { http_port: None, socks_port: None };
                }
                match parse_inbound_array(s, n, i5) {
                    None => {
                        proof {
                    assert(spec_port_file_members(s@, cur as nat, first, foundl) is None);
                    assert(spec_parse_port_file(s@) is None);
                }
                return PortConfig { http_port: None, socks_port: None };
                    },
                    Some((p, j, l)) => {
                        pc = p;
                        found = true;
                        proof {
                            foundl = Some(l@);
                        }
                        first = false;
                        cur = j;
                    },
                }
            } else {
                match skip_value(s, n, i5, n as u64) {
                    None => {
                        proof {
                            assert(spec_port_file_members(s@, cur as nat, first, foundl) is None);
                            assert(spec_parse_port_file(s@) is None);
                        }
                        return PortConfig { http_port: None, socks_port: None };
                    },
                    Some(i6) => {
                        first = false;
                        cur = i6;
                    },
                }
            }
        }
    }

    pub fn active_routing(&self) -> (r: String)
        ensures
            r@ == self.active_routing@,
    {
        self.active_routing.clone()
    }

    pub fn active_outbound(&self) -> (r: String)
        ensures
            r@ == self.active_outbound@,
    {
        self.active_outbound.clone()
    }

    pub fn sys_port_enable(&self) -> (r: bool)
        ensures
            r == self.sys_port_enable,
    {
        self.sys_port_enable
    }

    pub fn auto_launch_enable(&self) -> (r: bool)
        ensures
            r == self.auto_launch_enable,
    {
        self.auto_launch_enable
    }

    pub fn port_config(&self) -> (r: Option<PortConfig>)
        ensures
            r == self.port_config,
    {
        self.port_config
    }

    /// Selects a routing fragment. The caller persists `write_config()`
    /// immediately after, so no mutation outlives a crash unrecorded.
    pub fn set_active_routing(&mut self, new_data: String)
        ensures
            final(self).active_routing@ == new_data@,
            final(self).active_outbound == old(self).active_outbound,
            final(self).sys_port_enable == old(self).sys_port_enable,
            final(self).auto_launch_enable == old(self).auto_launch_enable,
            final(self).port_config == old(self).port_config,
    {
        self.active_routing = new_data;
    }

    /// Selects an outbound fragment; persisted like `set_active_routing`.
    pub fn set_active_outbound(&mut self, new_data: String)
        ensures
            final(self).active_outbound@ == new_data@,
            final(self).active_routing == old(self).active_routing,
            final(self).sys_port_enable == old(self).sys_port_enable,
            final(self).auto_launch_enable == old(self).auto_launch_enable,
            final(self).port_config == old(self).port_config,
    {
        self.active_outbound = new_data;
    }

    /// Turns the system-proxy feature on or off; persisted like
    /// `set_active_routing`.
    pub fn set_sys_port_enable(&mut self, new_data: bool)
        ensures
            final(self).sys_port_enable == new_data,
            final(self).active_routing == old(self).active_routing,
            final(self).active_outbound == old(self).active_outbound,
            final(self).auto_launch_enable == old(self).auto_launch_enable,
            final(self).port_config == old(self).port_config,
    {
        self.sys_port_enable = new_data;
    }

    /// Renders the full persisted state; the caller writes the result to the
    /// store file after every mutation.
    pub fn write_config(&self) -> (r: String)
        ensures
            r@ == spec_render_user_config(self.user_view()),
    {
        let mut out = String::from_str("{\"active_routing\":\"");
        escape_into(&mut out, self.active_routing.as_str());
        out.append("\",\"active_outbound\":\"");
        escape_into(&mut out, self.active_outbound.as_str());
        out.append("\",\"sys_port_enable\":");
        out.append(if self.sys_port_enable {
            "true"
        } else {
            "false"
        });
        out.append(",\"auto_launch_enable\":");
        out.append(if self.auto_launch_enable {
            "true"
        } else {
            "false"
        });
        out.append("}");
        proof {
            assert(out@ =~= spec_render_user_config(self.user_view()));
        }
        out
    }
}

// ------------------------------------------------------------------
// Fragment catalogs.
// ------------------------------------------------------------------

/// Mathematical value of one directory entry.
pub ghost struct FileEntryView {
    pub name: Seq<char>,
    pub is_file: bool,
}

/// One directory entry as the embedding program lists it: the file name and
/// whether the entry is a regular file.
pub struct FileEntry {
    pub name: String,
    pub is_file: bool,
}

impl View for FileEntry {
    type V = FileEntryView;

    open spec fn view(&self) -> FileEntryView {
        FileEntryView { name: self.name@, is_file: self.is_file }
    }
}

impl DeepView for FileEntry {
    type V = FileEntryView;

    open spec fn deep_view(&self) -> FileEntryView {
        self.view()
    }
}

pub open spec fn spec_ends_with(s: Seq<char>, suffix: Seq<char>) -> bool {
    s.len() >= suffix.len() && s.subrange(s.len() - suffix.len(), s.len() as int) == suffix
}

/// A routing fragment must be a regular file carrying the configuration-file
/// extension: a non-empty stem followed by `.json`.
pub open spec fn spec_routing_keep(e: FileEntryView) -> bool {
    e.is_file && e.name.len() > ".json"@.len() && spec_ends_with(e.name, ".json"@)
}

/// The name carries the configuration-file extension with a non-empty stem.
pub fn name_has_json_ext(name: &str) -> (r: bool)
    ensures
        r == (name@.len() > ".json"@.len() && spec_ends_with(name@, ".json"@)),
{
    let n = name.unicode_len();
    let m = ".json".unicode_len();
    if n <= m {
        return false;
    }
    let r = match_at(name, n, n - m, ".json");
    proof {
        assert(spec_match_at(name@, (n - m) as nat, ".json"@) == spec_ends_with(name@, ".json"@));
    }
    r
}

impl IConfig {
    /// Lists the selectable routing fragments: the regular files with the
    /// configuration-file extension, in directory order.
    pub fn get_routing_list(entries: &Vec<FileEntry>) -> (r: Vec<String>)
        ensures
            r.deep_view() == entries.deep_view().filter(|e: FileEntryView| spec_routing_keep(e)).map_values(
                |e: FileEntryView| e.name,
            ),
    {
        let mut out: Vec<String> = Vec::new();
        let mut k: usize = 0;
        proof {
            assert(entries.deep_view().take(0) =~= Seq::<FileEntryView>::empty());
            assert(Seq::<FileEntryView>::empty().filter(|e: FileEntryView| spec_routing_keep(e))
                =~= Seq::<FileEntryView>::empty());
            assert(out.deep_view() =~= Seq::<FileEntryView>::empty().map_values(
                |e: FileEntryView| e.name,
            ));
        }
        while k < entries.len()
            invariant
                k <= entries.len(),
                out.deep_view() == entries.deep_view().take(k as int).filter(
                    |e: FileEntryView| spec_routing_keep(e),
                ).map_values(|e: FileEntryView| e.name),
            decreases entries.len() - k,
        {
            let e = &entries[k];
            let ghost pre = entries.deep_view().take(k as int);
            let ghost keep = |x: FileEntryView| spec_routing_keep(x);
            let ghost toname = |x: FileEntryView| x.name;
            proof {
                broadcast use Seq::lemma_filter_push;
                assert(entries.deep_view().take(k + 1) =~= pre.push(e.deep_view()));
            }
            if e.is_file && name_has_json_ext(e.name.as_str()) {
                out.push(e.name.clone());
                proof {
                    assert(pre.push(e.deep_view()).filter(keep) == pre.filter(keep).push(
                        e.deep_view(),
                    ));
                    assert(out.deep_view() =~= pre.filter(keep).map_values(toname).push(
                        e.deep_view().name,
                    ));
                    assert(pre.filter(keep).push(e.deep_view()).map_values(toname) =~= pre.filter(
                        keep,
                    ).map_values(toname).push(e.deep_view().name));
                }
            } else {
                proof {
                    assert(pre.push(e.deep_view()).filter(keep) == pre.filter(keep));
                }
            }
            k = k + 1;
        }
        proof {
            assert(entries.deep_view().take(entries.len() as int) =~= entries.deep_view());
        }
        out
    }

    /// Lists the selectable outbound fragments: every regular file of the
    /// directory, unfiltered by extension (the intentional asymmetry with the
    /// routing catalog is the extension filter alone), in directory order.
    pub fn get_outbound_list(entries: &Vec<FileEntry>) -> (r: Vec<String>)
        ensures
            r.deep_view() == entries.deep_view().filter(|e: FileEntryView| e.is_file).map_values(
                |e: FileEntryView| e.name,
            ),
    {
        let mut out: Vec<String> = Vec::new();
        let mut k: usize = 0;
        proof {
            assert(entries.deep_view().take(0) =~= Seq::<FileEntryView>::empty());
            assert(Seq::<FileEntryView>::empty().filter(|e: FileEntryView| e.is_file)
                =~= Seq::<FileEntryView>::empty());
            assert(out.deep_view() =~= Seq::<FileEntryView>::empty().map_values(
                |e: FileEntryView| e.name,
            ));
        }
        while k < entries.len()
            invariant
                k <= entries.len(),
                out.deep_view() == entries.deep_view().take(k as int).filter(
                    |e: FileEntryView| e.is_file,
                ).map_values(|e: FileEntryView| e.name),
            decreases entries.len() - k,
        {
            let e = &entries[k];
            let ghost pre = entries.deep_view().take(k as int);
            let ghost keep = |x: FileEntryView| x.is_file;
            let ghost toname = |x: FileEntryView| x.name;
            proof {
                broadcast use Seq::lemma_filter_push;
                assert(entries.deep_view().take(k + 1) =~= pre.push(e.deep_view()));
            }
            if e.is_file {
                out.push(e.name.clone());
                proof {
                    assert(pre.push(e.deep_view()).filter(keep) == pre.filter(keep).push(
                        e.deep_view(),
                    ));
                    assert(out.deep_view() =~= pre.filter(keep).map_values(toname).push(
                        e.deep_view().name,
                    ));
                    assert(pre.filter(keep).push(e.deep_view()).map_values(toname) =~= pre.filter(
                        keep,
                    ).map_values(toname).push(e.deep_view().name));
                }
            } else {
                proof {
                    assert(pre.push(e.deep_view()).filter(keep) == pre.filter(keep));
                }
            }
            k = k + 1;
        }
        proof {
            assert(entries.deep_view().take(entries.len() as int) =~= entries.deep_view());
        }
        out
    }
}

} // verus!
