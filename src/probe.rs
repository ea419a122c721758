//! The Media Probe: what the prober's textual output says of a source, and the fallbacks
//! where it says nothing usable.
use vstd::prelude::*;
use crate::text::{
    decimal, first_line, first_line_str, parse_u64, parse_u64_spec, split, split_str, trim, trim_str, views,
};

verus! {

/// The frame rate assumed when the prober reports none.
pub const DEFAULT_FPS: u32 = 30;

/// Why probe output could not be used.
#[derive(Clone, Copy, Debug, PartialEq, Eq, Structural)]
pub enum ProbeError {
    /// The output held no line with content.
    Missing,
    /// The output could not be read as the expected value.
    Malformed,
}

/// `n / d` rounded to the nearest integer, halves away from zero.
pub open spec fn round_div(n: nat, d: nat) -> nat
    recommends
        d > 0,
{
    (2 * n + d) / (2 * d)
}

/// A piece of a frame-rate text, read as a `u32` after trimming.
pub open spec fn fps_field(s: Seq<char>) -> Option<nat> {
    match parse_u64_spec(trim(s)) {
        Some(v) => if v <= u32::MAX { Some(v as nat) } else { None },
        None => None,
    }
}

/// The frame rate that a line of the form `n`, `n/d` or `n/m/d` states, rounded to the
/// nearest integer; `None` if it is of none of these forms or divides by zero.
pub open spec fn fps_value(line: Seq<char>) -> Option<nat> {
    let parts = split(line, '/');
    if parts.len() == 1 {
        fps_field(parts[0])
    } else if parts.len() == 2 || parts.len() == 3 {
        match (fps_field(parts[0]), fps_field(parts[parts.len() - 1])) {
            (Some(n), Some(d)) => if d > 0 { Some(round_div(n, d)) } else { None },
            _ => None,
        }
    } else {
        None
    }
}

/// The frame rate that probe output reports: read from its first line with content, or
/// `DEFAULT_FPS` where there is none or it cannot be read.
pub open spec fn fps_of(out: Seq<char>) -> nat {
    match first_line(out) {
        Some(line) => match fps_value(line) {
            Some(v) => v,
            None => DEFAULT_FPS as nat,
        },
        None => DEFAULT_FPS as nat,
    }
}

fn fps_field_exec(s: &str) -> (r: Option<u64>)
    ensures
        match r {
            Some(v) => fps_field(s@) == Some(v as nat),
            None => fps_field(s@) is None,
        },
{
    match parse_u64(trim_str(s)) {
        Some(v) => if v <= u32::MAX as u64 { Some(v) } else { None },
        None => None,
    }
}

/// Reads a frame rate from probe output: a bare integer, a fraction `n/d`, or the
/// three-field form `n/m/d` (the middle field ignored), rounded to the nearest integer.
/// Output that is empty or cannot be read gives `DEFAULT_FPS`.
pub fn get_fps(out: &str) -> (r: u32)
    ensures
        r as nat == fps_of(out@),
{
    let line = match first_line_str(out) {
        Some(l) => l,
        None => {
            return DEFAULT_FPS;
        },
    };
    let parts = split_str(line.as_str(), '/');
    let ghost ps = views(parts@);
    let k = parts.len();
    assert(ps.len() == k);
    if k == 1 {
        assert(ps[0] == parts@[0]@);
        return match fps_field_exec(parts[0].as_str()) {
            Some(v) => v as u32,
            None => DEFAULT_FPS,
        };
    }
    if k != 2 && k != 3 {
        return DEFAULT_FPS;
    }
    assert(ps[0] == parts@[0]@);
    assert(ps[k - 1] == parts@[k - 1]@);
    let n = fps_field_exec(parts[0].as_str());
    let d = fps_field_exec(parts[k - 1].as_str());
    match (n, d) {
        (Some(n), Some(d)) => {
            if d == 0 {
                return DEFAULT_FPS;
            }
            let v = (2 * n + d) / (2 * d);
            assert(v <= n) by (nonlinear_arith)
                requires
                    v == (2 * n + d) / (2 * d),
                    d >= 1,
            {
                if n == 0 {
                } else {
                    assert(2 * n + d <= 2 * d * n + 2 * d - 1) by (nonlinear_arith)
                        requires n >= 1, d >= 1;
                }
            }
            v as u32
        },
        _ => DEFAULT_FPS,
    }
}

/// The bitrate assumed for a source of this size when the prober reports none, in bits per
/// second.
pub open spec fn default_bitrate_for(width: u32, height: u32) -> u64 {
    if width >= 3840 || height >= 2160 {
        30_000_000
    } else if width >= 2560 || height >= 1440 {
        14_000_000
    } else if width >= 1920 || height >= 1080 {
        7_000_000
    } else if width >= 1280 || height >= 720 {
        4_000_000
    } else {
        1_500_000
    }
}

/// The bitrate assumed for a source of this size when the prober reports none.
pub fn default_bitrate(width: u32, height: u32) -> (r: u64)
    ensures
        r == default_bitrate_for(width, height),
{
    if width >= 3840 || height >= 2160 {
        30_000_000
    } else if width >= 2560 || height >= 1440 {
        14_000_000
    } else if width >= 1920 || height >= 1080 {
        7_000_000
    } else if width >= 1280 || height >= 720 {
        4_000_000
    } else {
        1_500_000
    }
}

/// The bitrate that probe output states: the whole output, trimmed, as a decimal integer.
pub open spec fn reported_bitrate(out: Seq<char>) -> Option<u64> {
    parse_u64_spec(trim(out))
}

/// Reads the bitrate that probe output states, if it states one.
pub fn parse_bitrate(out: &str) -> (r: Option<u64>)
    ensures
        r == reported_bitrate(out@),
{
    parse_u64(trim_str(out))
}

/// The source bitrate: the reported one as it stands, or else the default for the source's
/// size. No multiplier is applied to either.
pub fn bitrate_or_default(out: &str, width: u32, height: u32) -> (r: u64)
    ensures
        r == match reported_bitrate(out@) {
            Some(b) => b,
            None => default_bitrate_for(width, height),
        },
{
    match parse_bitrate(out) {
        Some(b) => b,
        None => default_bitrate(width, height),
    }
}

/// A dimension field of a `WxH` line.
pub open spec fn dimension(s: Seq<char>) -> Option<u32> {
    match parse_u64_spec(trim(s)) {
        Some(v) => if v <= u32::MAX { Some(v as u32) } else { None },
        None => None,
    }
}

/// The resolution that probe output states on its first line with content, as `WxH`
/// (fields after the second are ignored).
pub open spec fn resolution_of(out: Seq<char>) -> Result<(u32, u32), ProbeError> {
    match first_line(out) {
        None => Err(ProbeError::Missing),
        Some(line) => {
            let parts = split(line, 'x');
            if parts.len() < 2 {
                Err(ProbeError::Malformed)
            } else {
                match (dimension(parts[0]), dimension(parts[1])) {
                    (Some(w), Some(h)) => Ok((w, h)),
                    _ => Err(ProbeError::Malformed),
                }
            }
        },
    }
}

fn dimension_exec(s: &str) -> (r: Option<u32>)
    ensures
        r == dimension(s@),
{
    match parse_u64(trim_str(s)) {
        Some(v) => if v <= u32::MAX as u64 { Some(v as u32) } else { None },
        None => None,
    }
}

/// Reads the source resolution (width, height) from probe output.
pub fn parse_resolution(out: &str) -> (r: Result<(u32, u32), ProbeError>)
    ensures
        r == resolution_of(out@),
{
    let line = match first_line_str(out) {
        Some(l) => l,
        None => {
            return Err(ProbeError::Missing);
        },
    };
    let parts = split_str(line.as_str(), 'x');
    let ghost ps = views(parts@);
    assert(ps.len() == parts.len());
    if parts.len() < 2 {
        return Err(ProbeError::Malformed);
    }
    assert(ps[0] == parts@[0]@);
    assert(ps[1] == parts@[1]@);
    match (dimension_exec(parts[0].as_str()), dimension_exec(parts[1].as_str())) {
        (Some(w), Some(h)) => Ok((w, h)),
        _ => Err(ProbeError::Malformed),
    }
}

/// Reads the source pixel format: the first line of probe output with content, trimmed.
pub fn parse_pix_fmt(out: &str) -> (r: Result<String, ProbeError>)
    ensures
        match r {
            Ok(p) => first_line(out@) == Some(p@),
            Err(e) => first_line(out@) is None && e == ProbeError::Missing,
        },
{
    match first_line_str(out) {
        Some(p) => Ok(p),
        None => Err(ProbeError::Missing),
    }
}

/// The frame count that a packet count in probe output states: its first line with
/// content, trimmed, read as a decimal integer. A line carrying anything besides digits
/// (such as `123,`) states no count; nothing is stripped from it, so a malformed report is
/// never mistaken for a count.
pub open spec fn packet_count_of(out: Seq<char>) -> Option<u64> {
    match first_line(out) {
        Some(line) => parse_u64_spec(line),
        None => None,
    }
}

/// Reads the total frame count from a packet count in probe output.
pub fn get_total_frames(out: &str) -> (r: Option<u64>)
    ensures
        r == packet_count_of(out@),
{
    match first_line_str(out) {
        Some(line) => parse_u64(line.as_str()),
        None => None,
    }
}

/// Ten to the power `k`.
pub open spec fn pow10(k: nat) -> nat
    decreases k,
{
    if k == 0 { 1 } else { 10 * pow10((k - 1) as nat) }
}

/// The most fractional digits a duration may carry.
pub const MAX_FRACTION_DIGITS: usize = 9;

/// A duration in seconds written `I` or `I.F` (`I` a decimal `u64`, `F` one to
/// `MAX_FRACTION_DIGITS` digits), as the fraction `(numerator, k)` meaning numerator / 10^k.
pub open spec fn duration_value(s: Seq<char>) -> Option<(nat, nat)> {
    let parts = split(s, '.');
    if parts.len() == 1 {
        match parse_u64_spec(parts[0]) {
            Some(i) => Some((i as nat, 0nat)),
            None => None,
        }
    } else if parts.len() == 2 && parts[1].len() <= MAX_FRACTION_DIGITS {
        match (parse_u64_spec(parts[0]), parse_u64_spec(parts[1])) {
            (Some(i), Some(f)) => Some(((i as nat * pow10(parts[1].len()) + f as nat) as nat, parts[1].len())),
            _ => None,
        }
    } else {
        None
    }
}

/// An average frame rate written `n/d` with `d` non-zero.
pub open spec fn rate_value(s: Seq<char>) -> Option<(nat, nat)> {
    let parts = split(s, '/');
    if parts.len() == 2 {
        match (fps_field(parts[0]), fps_field(parts[1])) {
            (Some(n), Some(d)) => if d > 0 { Some((n, d)) } else { None },
            _ => None,
        }
    } else {
        None
    }
}

/// `a / b` rounded up.
pub open spec fn ceil_div(a: nat, b: nat) -> nat
    recommends
        b > 0,
{
    ((a + b - 1) / (b as int)) as nat
}

/// The total frame count that an average frame rate and a duration give: their product,
/// rounded up; the rate (`n/d`) is the first line of the output, the duration the second.
/// A missing second line is `Missing`; a blank or unreadable rate or duration is
/// `Malformed`.
pub open spec fn frames_from_rate_of(out: Seq<char>) -> Result<u64, ProbeError> {
    let lines = split(out, '\n');
    if lines.len() < 2 {
        Err(ProbeError::Missing)
    } else {
        match (rate_value(trim(lines[0])), duration_value(trim(lines[1]))) {
            (Some((n, d)), Some((num, k))) => {
                let frames = ceil_div(n * num, d * pow10(k));
                if frames <= u64::MAX { Ok(frames as u64) } else { Err(ProbeError::Malformed) }
            },
            _ => Err(ProbeError::Malformed),
        }
    }
}

fn pow10_exec(k: usize) -> (r: u64)
    requires
        k <= MAX_FRACTION_DIGITS,
    ensures
        r as nat == pow10(k as nat),
        1 <= r <= 1_000_000_000,
{
    reveal_with_fuel(pow10, 10);
    match k {
        0 => 1,
        1 => 10,
        2 => 100,
        3 => 1_000,
        4 => 10_000,
        5 => 100_000,
        6 => 1_000_000,
        7 => 10_000_000,
        8 => 100_000_000,
        _ => 1_000_000_000,
    }
}

fn duration_exec(s: &str) -> (r: Option<(u128, usize)>)
    ensures
        match r {
            Some((num, k)) => duration_value(s@) == Some((num as nat, k as nat)) && k <= MAX_FRACTION_DIGITS
                && num <= u64::MAX * 1_000_000_001,
            None => duration_value(s@) is None,
        },
{
    let parts = split_str(s, '.');
    let ghost ps = views(parts@);
    assert(ps.len() == parts.len());
    if parts.len() == 1 {
        assert(ps[0] == parts@[0]@);
        return match parse_u64(parts[0].as_str()) {
            Some(i) => Some((i as u128, 0)),
            None => None,
        };
    }
    if parts.len() != 2 {
        return None;
    }
    assert(ps[0] == parts@[0]@);
    assert(ps[1] == parts@[1]@);
    let k = parts[1].as_str().unicode_len();
    if k > MAX_FRACTION_DIGITS {
        return None;
    }
    match (parse_u64(parts[0].as_str()), parse_u64(parts[1].as_str())) {
        (Some(i), Some(f)) => {
            let p = pow10_exec(k);
            assert((i as u128) * (p as u128) <= u64::MAX * 1_000_000_000) by (nonlinear_arith)
                requires i <= u64::MAX, p <= 1_000_000_000;
            let wide = (i as u128) * (p as u128) + (f as u128);
            assert(wide <= u64::MAX * 1_000_000_001) by (nonlinear_arith)
                requires
                    wide == i * p + f,
                    p <= 1_000_000_000,
                    i <= u64::MAX,
                    f <= u64::MAX;
            Some((wide, k))
        },
        _ => None,
    }
}

fn rate_exec(s: &str) -> (r: Option<(u64, u64)>)
    ensures
        match r {
            Some((n, d)) => rate_value(s@) == Some((n as nat, d as nat)) && n <= u32::MAX && d <= u32::MAX,
            None => rate_value(s@) is None,
        },
{
    let parts = split_str(s, '/');
    let ghost ps = views(parts@);
    assert(ps.len() == parts.len());
    if parts.len() != 2 {
        return None;
    }
    assert(ps[0] == parts@[0]@);
    assert(ps[1] == parts@[1]@);
    match (fps_field_exec(parts[0].as_str()), fps_field_exec(parts[1].as_str())) {
        (Some(n), Some(d)) => if d > 0 { Some((n, d)) } else { None },
        _ => None,
    }
}

/// Computes the total frame count from an average frame rate (first line) and a duration
/// in seconds (second line), rounding the product up.
pub fn frames_from_rate(out: &str) -> (r: Result<u64, ProbeError>)
    ensures
        r == frames_from_rate_of(out@),
{
    let lines = split_str(out, '\n');
    let ghost ls = views(lines@);
    assert(ls.len() == lines.len());
    assert(ls.len() >= 1) by {
        crate::text::lemma_split_nonempty(out@, '\n');
    }
    assert(ls[0] == lines@[0]@);
    let rate_line = trim_str(lines[0].as_str());
    if lines.len() < 2 {
        return Err(ProbeError::Missing);
    }
    assert(ls[1] == lines@[1]@);
    let rate = rate_exec(rate_line);
    let dur = duration_exec(trim_str(lines[1].as_str()));
    match (rate, dur) {
        (Some((n, d)), Some((num, k))) => {
            assert(k <= MAX_FRACTION_DIGITS);
            let p = pow10_exec(k);
            assert((n as u128) * num <= u32::MAX * (u64::MAX * 1_000_000_001)) by (nonlinear_arith)
                requires n <= u32::MAX, num <= u64::MAX * 1_000_000_001;
            let top = (n as u128) * num;
            assert((d as u128) * (p as u128) <= u32::MAX * 1_000_000_000) by (nonlinear_arith)
                requires d <= u32::MAX, p <= 1_000_000_000;
            let bottom = (d as u128) * (p as u128);
            assert(top <= u32::MAX * (u64::MAX * 1_000_000_001)) by (nonlinear_arith)
                requires top == n * num, n <= u32::MAX, num <= u64::MAX * 1_000_000_001;
            assert(bottom <= u32::MAX * 1_000_000_000) by (nonlinear_arith)
                requires bottom == d * p, d <= u32::MAX, p <= 1_000_000_000;
            assert(bottom >= 1) by (nonlinear_arith)
                requires bottom == d * p, d >= 1, p >= 1;
            let frames = (top + bottom - 1) / bottom;
            if frames > u64::MAX as u128 {
                return Err(ProbeError::Malformed);
            }
            Ok(frames as u64)
        },
        _ => Err(ProbeError::Malformed),
    }
}

/// The codec name that probe output states: its first line, or `none` if it has none.
pub open spec fn codec_name_of(out: Seq<char>) -> Seq<char> {
    if out.len() == 0 { "none"@ } else { split(out, '\n')[0] }
}

/// Reads a stream's codec name from probe output.
pub fn parse_codec_name(out: &str) -> (r: String)
    ensures
        r@ == codec_name_of(out@),
{
    if out.unicode_len() == 0 {
        return String::from_str("none");
    }
    let lines = split_str(out, '\n');
    proof {
        crate::text::lemma_split_nonempty(out@, '\n');
        assert(views(lines@)[0] == lines@[0]@);
    }
    lines[0].clone()
}

proof fn lemma_numeral_field(k: nat)
    requires
        k <= u32::MAX,
    ensures
        fps_field(decimal(k)) == Some(k),
        forall|i: int| 0 <= i < decimal(k).len() ==> crate::text::is_digit(#[trigger] decimal(k)[i]),
        decimal(k).len() > 0,
{
    crate::text::lemma_decimal_digits(k);
    crate::text::lemma_decimal_value(k);
    let x = decimal(k);
    assert(!crate::text::is_space(x[0]));
    assert(!crate::text::is_space(x[x.len() - 1]));
    crate::text::lemma_trim_plain(x);
}

proof fn lemma_single_line(t: Seq<char>)
    requires
        t.len() > 0,
        forall|i: int| 0 <= i < t.len() ==> (crate::text::is_digit(#[trigger] t[i]) || t[i] == '/'),
        crate::text::is_digit(t[0]),
        crate::text::is_digit(t[t.len() - 1]),
    ensures
        first_line(t) == Some(t),
{
    assert forall|i: int| 0 <= i < t.len() implies t[i] != '\n' by {
        assert(crate::text::is_digit(t[i]) || t[i] == '/');
    }
    crate::text::lemma_split_none(t, '\n');
    crate::text::lemma_trim_plain(t);
    let lines = seq![t];
    assert(lines[0] == t);
}

proof fn lemma_no_slash(x: Seq<char>)
    requires
        forall|i: int| 0 <= i < x.len() ==> crate::text::is_digit(#[trigger] x[i]),
    ensures
        forall|i: int| 0 <= i < x.len() ==> x[i] != '/',
{
    assert forall|i: int| 0 <= i < x.len() implies x[i] != '/' by {
        assert(crate::text::is_digit(x[i]));
    }
}

/// Frame rates written as a bare integer `n`, a fraction `n/d`, or three fields `n/m/d`
/// read as `n`, as `n / d` rounded to the nearest integer, and again as `n / d` rounded:
/// the middle field of the three-field form is ignored.
pub proof fn lemma_fps_forms(n: u32, m: u32, d: u32)
    requires
        d > 0,
    ensures
        fps_of(decimal(n as nat)) == n,
        fps_of(decimal(n as nat) + "/"@ + decimal(d as nat)) == round_div(n as nat, d as nat),
        fps_of(decimal(n as nat) + "/"@ + decimal(m as nat) + "/"@ + decimal(d as nat)) == round_div(n as nat, d as nat),
{
    reveal_strlit("/");
    let dn = decimal(n as nat);
    let dm = decimal(m as nat);
    let dd = decimal(d as nat);
    lemma_numeral_field(n as nat);
    lemma_numeral_field(m as nat);
    lemma_numeral_field(d as nat);
    lemma_no_slash(dn);
    lemma_no_slash(dm);
    lemma_no_slash(dd);
    let slash = seq!['/'];
    assert("/"@ =~= slash);

    lemma_single_line(dn);
    crate::text::lemma_split_none(dn, '/');
    assert(split(dn, '/')[0] == dn);

    let t2 = dn + slash + dd;
    assert forall|i: int| 0 <= i < t2.len() implies (crate::text::is_digit(#[trigger] t2[i]) || t2[i] == '/') by {
        if i < dn.len() {
            assert(t2[i] == dn[i]);
        } else if i == dn.len() {
        } else {
            assert(t2[i] == dd[i - dn.len() - 1]);
        }
    }
    assert(t2[0] == dn[0]);
    assert(t2[t2.len() - 1] == dd[dd.len() - 1]);
    lemma_single_line(t2);
    crate::text::lemma_split_append(dn, '/', dd);
    let p2 = split(t2, '/');
    assert(p2 == seq![dn].push(dd));
    assert(p2.len() == 2 && p2[0] == dn && p2[1] == dd);

    let t3a = dn + slash + dm;
    let t3 = t3a + slash + dd;
    assert(dn + "/"@ + dm + "/"@ + dd == t3);
    assert forall|i: int| 0 <= i < t3.len() implies (crate::text::is_digit(#[trigger] t3[i]) || t3[i] == '/') by {
        if i < dn.len() {
            assert(t3[i] == dn[i]);
        } else if i == dn.len() {
        } else if i < dn.len() + 1 + dm.len() {
            assert(t3[i] == dm[i - dn.len() - 1]);
        } else if i == dn.len() + 1 + dm.len() {
        } else {
            assert(t3[i] == dd[i - dn.len() - 2 - dm.len()]);
        }
    }
    assert(t3[0] == dn[0]);
    assert(t3[t3.len() - 1] == dd[dd.len() - 1]);
    lemma_single_line(t3);
    crate::text::lemma_split_append(dn, '/', dm);
    crate::text::lemma_split_append(t3a, '/', dd);
    let p3 = split(t3, '/');
    assert(p3 == seq![dn].push(dm).push(dd));
    assert(p3.len() == 3 && p3[0] == dn && p3[2] == dd);
}

} // verus!
