//! The GPU codec negotiator: a per-process cache of which accelerated encoder, if any,
//! serves each codec family, and the choice of encoder from a ranked list of families.
use vstd::prelude::*;
use crate::text::str_eq;

verus! {

/// A family of codecs for which an accelerated encoder may exist.
#[derive(Clone, Copy, Debug, PartialEq, Eq, Structural)]
pub enum CodecFamily {
    H264,
    Wmv2,
    Wmv3,
    Av1,
    Vp9,
    Vp8,
    Mpeg2,
}

/// The name of a codec family, the prefix of its accelerated encoders' names.
pub open spec fn family_name(f: CodecFamily) -> Seq<char> {
    match f {
        CodecFamily::H264 => "h264"@,
        CodecFamily::Wmv2 => "wmv2"@,
        CodecFamily::Wmv3 => "wmv3"@,
        CodecFamily::Av1 => "av1"@,
        CodecFamily::Vp9 => "vp9"@,
        CodecFamily::Vp8 => "vp8"@,
        CodecFamily::Mpeg2 => "mpeg2"@,
    }
}

/// The hardware back ends, in the order in which they are probed.
pub open spec fn backend_suffixes() -> Seq<Seq<char>> {
    seq!["_nvenc"@, "_qsv"@, "_vaapi"@, "_amf"@, "_videotoolbox"@]
}

/// The accelerated encoders of a family, in the order in which they are probed.
pub open spec fn hardware_candidates(f: CodecFamily) -> Seq<Seq<char>> {
    backend_suffixes().map_values(|s: Seq<char>| family_name(f) + s)
}

impl CodecFamily {
    /// The name of the family.
    pub fn name(&self) -> (r: &'static str)
        ensures
            r@ == family_name(*self),
    {
        match self {
            CodecFamily::H264 => "h264",
            CodecFamily::Wmv2 => "wmv2",
            CodecFamily::Wmv3 => "wmv3",
            CodecFamily::Av1 => "av1",
            CodecFamily::Vp9 => "vp9",
            CodecFamily::Vp8 => "vp8",
            CodecFamily::Mpeg2 => "mpeg2",
        }
    }

    /// The accelerated encoder to probe after `tried` others of this family have failed,
    /// or `None` once every candidate has been tried.
    pub fn candidate(&self, tried: usize) -> (r: Option<String>)
        ensures
            match r {
                Some(e) => tried < hardware_candidates(*self).len() && e@ == hardware_candidates(*self)[tried as int],
                None => tried >= hardware_candidates(*self).len(),
            },
    {
        let suffix = if tried == 0 {
            "_nvenc"
        } else if tried == 1 {
            "_qsv"
        } else if tried == 2 {
            "_vaapi"
        } else if tried == 3 {
            "_amf"
        } else if tried == 4 {
            "_videotoolbox"
        } else {
            return None;
        };
        Some(String::from_str(self.name()).concat(suffix))
    }
}

/// The outcome of probing one family: the first accelerated encoder that worked, if any.
pub struct ProbeRecord {
    pub family: CodecFamily,
    pub encoder: Option<String>,
}

/// The view of an optional string.
pub open spec fn opt_view(o: Option<String>) -> Option<Seq<char>> {
    match o {
        Some(s) => Some(s@),
        None => None,
    }
}

/// What a list of probe records says of each family: the last record of a family counts.
pub open spec fn records_map(s: Seq<ProbeRecord>) -> Map<CodecFamily, Option<Seq<char>>>
    decreases s.len(),
{
    if s.len() == 0 {
        Map::empty()
    } else {
        records_map(s.drop_last()).insert(s.last().family, opt_view(s.last().encoder))
    }
}

/// Which encoder a ranked list of families settles on, given what is known of each family:
/// the first family with an accelerated encoder wins; a family not yet probed must be
/// probed before anything later is looked at; with none, the software `default`.
pub open spec fn negotiate(
    known: Map<CodecFamily, Option<Seq<char>>>,
    families: Seq<CodecFamily>,
    default: Seq<char>,
) -> Result<Seq<char>, CodecFamily>
    decreases families.len(),
{
    if families.len() == 0 {
        Ok(default)
    } else if !known.contains_key(families[0]) {
        Err(families[0])
    } else {
        match known[families[0]] {
            Some(e) => Ok(e),
            None => negotiate(known, families.drop_first(), default),
        }
    }
}

/// Whether every encoder that `known` holds is an accelerated encoder of its family.
pub open spec fn all_accelerated(known: Map<CodecFamily, Option<Seq<char>>>) -> bool {
    forall|f: CodecFamily| #[trigger] known.contains_key(f) ==> match known[f] {
        Some(e) => hardware_candidates(f).contains(e),
        None => true,
    }
}

/// The process-wide cache of probe outcomes, negative ones included.
pub struct GpuNegotiator {
    records: Vec<ProbeRecord>,
}

impl GpuNegotiator {
    /// Every stored encoder is an accelerated encoder of its family.
    pub closed spec fn wf(&self) -> bool {
        all_accelerated(records_map(self.records@))
    }
}

/// Whether `e` is one of the accelerated encoders of `family`.
pub fn is_candidate(family: CodecFamily, e: &str) -> (r: bool)
    ensures
        r == hardware_candidates(family).contains(e@),
{
    let mut tried: usize = 0;
    while tried < 5
        invariant
            tried <= 5,
            hardware_candidates(family).len() == 5,
            forall|k: int| 0 <= k < tried ==> hardware_candidates(family)[k] != e@,
        decreases 5 - tried,
    {
        match family.candidate(tried) {
            Some(c) => {
                if str_eq(c.as_str(), e) {
                    return true;
                }
            },
            None => {},
        }
        tried = tried + 1;
    }
    false
}

impl View for GpuNegotiator {
    type V = Map<CodecFamily, Option<Seq<char>>>;

    closed spec fn view(&self) -> Map<CodecFamily, Option<Seq<char>>> {
        records_map(self.records@)
    }
}

proof fn lemma_records_prefix(s: Seq<ProbeRecord>, i: int, f: CodecFamily)
    requires
        0 <= i < s.len(),
        s[i].family != f,
    ensures
        records_map(s.subrange(0, i + 1)).contains_key(f) == records_map(s.subrange(0, i)).contains_key(f),
        records_map(s.subrange(0, i + 1))[f] == records_map(s.subrange(0, i))[f],
{
    assert(s.subrange(0, i + 1).drop_last() =~= s.subrange(0, i));
}

impl GpuNegotiator {
    /// A cache that knows nothing yet.
    pub fn new() -> (r: GpuNegotiator)
        ensures
            r@ == Map::<CodecFamily, Option<Seq<char>>>::empty(),
            r.wf(),
    {
        GpuNegotiator { records: Vec::new() }
    }

    /// What is known of `family`: `None` if it was never probed, else the probe's outcome.
    pub fn cached(&self, family: CodecFamily) -> (r: Option<Option<String>>)
        ensures
            match r {
                Some(o) => self@.contains_key(family) && self@[family] == opt_view(o),
                None => !self@.contains_key(family),
            },
    {
        let mut i: usize = self.records.len();
        assert(self.records@.subrange(0, i as int) =~= self.records@);
        while i > 0
            invariant
                i <= self.records@.len(),
                records_map(self.records@) == records_map(self.records@.subrange(0, i as int))
                    || (records_map(self.records@).contains_key(family)
                        == records_map(self.records@.subrange(0, i as int)).contains_key(family)
                        && records_map(self.records@)[family] == records_map(self.records@.subrange(0, i as int))[family]),
            decreases i,
        {
            let rec = &self.records[i - 1];
            if rec.family == family {
                proof {
                    assert(self.records@.subrange(0, i as int).drop_last() =~= self.records@.subrange(0, i - 1));
                }
                return Some(rec.encoder.clone());
            }
            proof {
                lemma_records_prefix(self.records@, i - 1, family);
            }
            i = i - 1;
        }
        None
    }

    /// Stores the outcome of probing `family`: the accelerated encoder found, if any. An
    /// outcome already stored is kept, so a family is settled by its first probe. A name
    /// that is not an accelerated encoder of the family counts as none found.
    pub fn record(&mut self, family: CodecFamily, encoder: Option<String>)
        requires
            old(self).wf(),
        ensures
            final(self).wf(),
            old(self)@.contains_key(family) ==> final(self)@ == old(self)@,
            !old(self)@.contains_key(family) ==> final(self)@ == old(self)@.insert(
                family,
                match encoder {
                    Some(e) => if hardware_candidates(family).contains(e@) { Some(e@) } else { None },
                    None => None,
                },
            ),
    {
        if self.cached(family).is_none() {
            let kept = match encoder {
                Some(e) => if is_candidate(family, e.as_str()) { Some(e) } else { None },
                None => None,
            };
            let ghost before = self.records@;
            let ghost kv = opt_view(kept);
            self.records.push(ProbeRecord { family, encoder: kept });
            assert(self.records@.drop_last() =~= before);
            assert(records_map(self.records@) == records_map(before).insert(family, kv));
            assert forall|f: CodecFamily| #[trigger] records_map(self.records@).contains_key(f) implies match records_map(self.records@)[f] {
                Some(e) => hardware_candidates(f).contains(e),
                None => true,
            } by {
                if f != family {
                    assert(records_map(before).contains_key(f));
                }
            }
        }
    }

    /// Chooses the video encoder for a ranked list of families, or names the family that
    /// has to be probed first.
    pub fn select_encoder(&self, families: &Vec<CodecFamily>, default: &str) -> (r: Result<String, CodecFamily>)
        requires
            self.wf(),
        ensures
            all_accelerated(self@),
            match r {
                Ok(e) => negotiate(self@, families@, default@) == Ok::<Seq<char>, CodecFamily>(e@),
                Err(f) => negotiate(self@, families@, default@) == Err::<Seq<char>, CodecFamily>(f),
            },
    {
        let mut i: usize = 0;
        assert(families@.subrange(0, families@.len() as int) =~= families@);
        assert(all_accelerated(self@));
        while i < families.len()
            invariant
                all_accelerated(self@),
                i <= families@.len(),
                negotiate(self@, families@, default@)
                    == negotiate(self@, families@.subrange(i as int, families@.len() as int), default@),
            decreases families.len() - i,
        {
            let f = families[i];
            let ghost rest = families@.subrange(i as int, families@.len() as int);
            assert(rest[0] == f);
            match self.cached(f) {
                None => {
                    return Err(f);
                },
                Some(Some(e)) => {
                    return Ok(e);
                },
                Some(None) => {
                    assert(rest.drop_first() =~= families@.subrange(i as int + 1, families@.len() as int));
                },
            }
            i = i + 1;
        }
        Ok(String::from_str(default))
    }
}

/// A family whose outcome is known is never asked for again: negotiating over it alone
/// settles on its accelerated encoder, or on the software default if it has none.
pub proof fn lemma_probe_once(
    known: Map<CodecFamily, Option<Seq<char>>>,
    family: CodecFamily,
    default: Seq<char>,
)
    requires
        known.contains_key(family),
    ensures
        negotiate(known, seq![family], default)
            == Ok::<Seq<char>, CodecFamily>(match known[family] { Some(e) => e, None => default }),
{
    let fs = seq![family];
    assert(fs.drop_first() =~= Seq::<CodecFamily>::empty());
    assert(fs[0] == family);
    assert(negotiate(known, Seq::<CodecFamily>::empty(), default) == Ok::<Seq<char>, CodecFamily>(default));
}

/// Once every family of a ranked list has been probed, negotiation over the list asks for
/// no further probe.
pub proof fn lemma_known_families_settle(
    known: Map<CodecFamily, Option<Seq<char>>>,
    families: Seq<CodecFamily>,
    default: Seq<char>,
)
    requires
        forall|i: int| 0 <= i < families.len() ==> known.contains_key(#[trigger] families[i]),
    ensures
        negotiate(known, families, default) is Ok,
    decreases families.len(),
{
    if families.len() > 0 {
        assert(known.contains_key(families[0]));
        let rest = families.drop_first();
        assert forall|i: int| 0 <= i < rest.len() implies known.contains_key(#[trigger] rest[i]) by {
            assert(rest[i] == families[i + 1]);
        }
        lemma_known_families_settle(known, rest, default);
    }
}

} // verus!
