//! The pure parts of the HTTP front: which origins may call the service, the port setting,
//! and the response envelope.
use vstd::prelude::*;
use crate::text::{split, split_str, trim, trim_str, views};

verus! {

/// Which origins may make cross-origin requests.
pub enum CorsConfig {
    Any,
    Specific(Vec<String>),
}

/// The origins named in a comma-separated list, trimmed, empty entries dropped.
pub open spec fn listed_origins(raw: Seq<char>) -> Seq<Seq<char>> {
    split(trim(raw), ',').map_values(|s: Seq<char>| trim(s)).filter(|s: Seq<char>| s.len() > 0)
}

/// Reads the allowed-origins setting: empty or `*` allows any origin; otherwise a
/// comma-separated list of origins.
pub fn parse_cors(origins_raw: &str) -> (r: CorsConfig)
    ensures
        (trim(origins_raw@).len() == 0 || trim(origins_raw@) == "*"@) ==> r is Any,
        !(trim(origins_raw@).len() == 0 || trim(origins_raw@) == "*"@) ==> (r matches CorsConfig::Specific(v)
            && views(v@) == listed_origins(origins_raw@)),
{
    let raw = trim_str(origins_raw);
    if raw.unicode_len() == 0 || crate::text::str_eq(raw, "*") {
        return CorsConfig::Any;
    }
    let parts = split_str(raw, ',');
    let ghost ps = views(parts@);
    let mut out: Vec<String> = Vec::new();
    let mut i: usize = 0;
    assert(ps.subrange(0, 0).map_values(|s: Seq<char>| trim(s)).filter(|s: Seq<char>| s.len() > 0) =~= Seq::<Seq<char>>::empty());
    while i < parts.len()
        invariant
            i <= parts@.len(),
            ps == views(parts@),
            views(out@) == ps.subrange(0, i as int).map_values(|s: Seq<char>| trim(s)).filter(|s: Seq<char>| s.len() > 0),
        decreases parts.len() - i,
    {
        let t = trim_str(parts[i].as_str());
        proof {
            let pre = ps.subrange(0, i as int);
            assert(ps.subrange(0, i as int + 1) =~= pre.push(ps[i as int]));
            assert(ps.subrange(0, i as int + 1).map_values(|s: Seq<char>| trim(s))
                =~= pre.map_values(|s: Seq<char>| trim(s)).push(trim(ps[i as int])));
            crate::text::lemma_filter_push(pre.map_values(|s: Seq<char>| trim(s)), |s: Seq<char>| s.len() > 0, trim(ps[i as int]));
        }
        if t.unicode_len() > 0 {
            let ghost before = out@;
            out.push(t.to_owned());
            assert(views(out@) =~= views(before).push(t@));
        }
        i = i + 1;
    }
    assert(ps.subrange(0, parts@.len() as int) =~= ps);
    CorsConfig::Specific(out)
}

/// Whether a port setting holds only digits (an empty one passes this test).
pub fn port_is_numeric(port: &str) -> (r: bool)
    ensures
        r == forall|i: int| 0 <= i < port@.len() ==> crate::text::is_digit(#[trigger] port@[i]),
{
    let n = port.unicode_len();
    let mut i: usize = 0;
    while i < n
        invariant
            n == port@.len(),
            i <= n,
            forall|k: int| 0 <= k < i ==> crate::text::is_digit(#[trigger] port@[k]),
        decreases n - i,
    {
        let c = port.get_char(i);
        if !('0' <= c && c <= '9') {
            return false;
        }
        i = i + 1;
    }
    true
}

/// The envelope of every JSON response: a value, or an error text.
pub enum ApiResponse<T> {
    Success(T),
    Error(String),
}

} // verus!
