//! The preset value and the catalog of supported combinations.

use vstd::prelude::*;
use crate::axes::{FFmpegCodec, FFmpegHwAccel, FFmpegQuality};

verus! {

/// Container formats into which subtitles can be muxed as soft subtitles.
pub const SOFTSUB_CONTAINERS: [&'static str; 3] = ["mkv", "mov", "mp4"];

/// A resolved configuration for an ffmpeg run.
#[derive(Clone, Debug, PartialEq, Eq)]
pub enum FFmpegPreset {
    /// A codec with an optional hardware acceleration and a quality tier.
    Predefined(FFmpegCodec, Option<FFmpegHwAccel>, FFmpegQuality),
    /// Shell-style arguments handed to ffmpeg's output side as they are.
    Custom(Option<String>),
}

/// What an [`FFmpegPreset`] stands for, with its text as characters.
pub ghost enum PresetModel {
    Predefined(FFmpegCodec, Option<FFmpegHwAccel>, FFmpegQuality),
    Custom(Option<Seq<char>>),
}

impl View for FFmpegPreset {
    type V = PresetModel;

    open spec fn view(&self) -> PresetModel {
        match self {
            FFmpegPreset::Predefined(c, h, q) => PresetModel::Predefined(*c, *h, *q),
            FFmpegPreset::Custom(None) => PresetModel::Custom(None),
            FFmpegPreset::Custom(Some(s)) => PresetModel::Custom(Some(s@)),
        }
    }
}

/// One entry of the catalog: a codec, maybe an acceleration, maybe a quality.
pub type PresetMatch = (FFmpegCodec, Option<FFmpegHwAccel>, Option<FFmpegQuality>);

/// The accelerations that a codec can be encoded with.
pub open spec fn permitted_accels(c: FFmpegCodec) -> Seq<FFmpegHwAccel> {
    match c {
        FFmpegCodec::Av1 => seq![FFmpegHwAccel::Amd],
        _ => FFmpegHwAccel::spec_all(),
    }
}

pub open spec fn accel_only(c: FFmpegCodec, hs: Seq<FFmpegHwAccel>) -> Seq<PresetMatch> {
    hs.map_values(|h: FFmpegHwAccel| (c, Some(h), None::<FFmpegQuality>))
}

pub open spec fn quality_only(c: FFmpegCodec, qs: Seq<FFmpegQuality>) -> Seq<PresetMatch> {
    qs.map_values(|q: FFmpegQuality| (c, None::<FFmpegHwAccel>, Some(q)))
}

pub open spec fn with_accel(c: FFmpegCodec, h: FFmpegHwAccel, qs: Seq<FFmpegQuality>) -> Seq<
    PresetMatch,
> {
    qs.map_values(|q: FFmpegQuality| (c, Some(h), Some(q)))
}

/// Every acceleration in `hs` with every quality in `qs`, acceleration-major.
pub open spec fn accel_quality(
    c: FFmpegCodec,
    hs: Seq<FFmpegHwAccel>,
    qs: Seq<FFmpegQuality>,
) -> Seq<PresetMatch>
    decreases hs.len(),
{
    if hs.len() == 0 {
        seq![]
    } else {
        accel_quality(c, hs.drop_last(), qs) + with_accel(c, hs.last(), qs)
    }
}

/// The catalog entries of one codec: the codec alone, with each acceleration,
/// with each quality, then with each acceleration and quality.
pub open spec fn codec_matches(c: FFmpegCodec) -> Seq<PresetMatch> {
    seq![(c, None::<FFmpegHwAccel>, None::<FFmpegQuality>)] + accel_only(c, permitted_accels(c))
        + quality_only(c, FFmpegQuality::spec_all()) + accel_quality(
        c,
        permitted_accels(c),
        FFmpegQuality::spec_all(),
    )
}

/// The catalog: the entries of each codec, codecs in canonical order.
pub open spec fn spec_available_matches() -> Seq<PresetMatch> {
    codec_matches(FFmpegCodec::H264) + codec_matches(FFmpegCodec::H265) + codec_matches(
        FFmpegCodec::Av1,
    )
}

/// Appends the catalog entries of `c`, given its accelerations and the qualities.
fn push_codec_matches(
    r: &mut Vec<PresetMatch>,
    c: FFmpegCodec,
    hs: &Vec<FFmpegHwAccel>,
    qs: &Vec<FFmpegQuality>,
)
    ensures
        final(r)@ == old(r)@ + seq![(c, None::<FFmpegHwAccel>, None::<FFmpegQuality>)]
            + accel_only(c, hs@) + quality_only(c, qs@) + accel_quality(c, hs@, qs@),
{
    r.push((c, None, None));
    let ghost base = r@;
    let mut i: usize = 0;
    while i < hs.len()
        invariant
            0 <= i <= hs@.len(),
            r@ == base + accel_only(c, hs@.take(i as int)),
        decreases hs.len() - i,
    {
        r.push((c, Some(hs[i]), None));
        assert(accel_only(c, hs@.take(i + 1)) =~= accel_only(c, hs@.take(i as int)).push(
            (c, Some(hs@[i as int]), None),
        ));
        i += 1;
    }
    assert(hs@.take(hs@.len() as int) =~= hs@);
    let ghost base = r@;
    let mut i: usize = 0;
    while i < qs.len()
        invariant
            0 <= i <= qs@.len(),
            r@ == base + quality_only(c, qs@.take(i as int)),
        decreases qs.len() - i,
    {
        r.push((c, None, Some(qs[i])));
        assert(quality_only(c, qs@.take(i + 1)) =~= quality_only(c, qs@.take(i as int)).push(
            (c, None, Some(qs@[i as int])),
        ));
        i += 1;
    }
    assert(qs@.take(qs@.len() as int) =~= qs@);
    let ghost base = r@;
    let mut i: usize = 0;
    while i < hs.len()
        invariant
            0 <= i <= hs@.len(),
            r@ == base + accel_quality(c, hs@.take(i as int), qs@),
        decreases hs.len() - i,
    {
        let h = hs[i];
        let ghost mid = r@;
        let mut j: usize = 0;
        while j < qs.len()
            invariant
                0 <= j <= qs@.len(),
                r@ == mid + with_accel(c, h, qs@.take(j as int)),
            decreases qs.len() - j,
        {
            r.push((c, Some(h), Some(qs[j])));
            assert(with_accel(c, h, qs@.take(j + 1)) =~= with_accel(c, h, qs@.take(j as int)).push(
                (c, Some(h), Some(qs@[j as int])),
            ));
            j += 1;
        }
        assert(qs@.take(qs@.len() as int) =~= qs@);
        assert(hs@.take(i + 1).drop_last() =~= hs@.take(i as int));
        assert(r@ =~= base + accel_quality(c, hs@.take(i + 1), qs@));
        i += 1;
    }
    assert(hs@.take(hs@.len() as int) =~= hs@);
}

impl FFmpegPreset {
    /// The catalog of supported (codec, acceleration, quality) combinations.
    pub fn available_matches() -> (r: Vec<PresetMatch>)
        ensures
            r@ == spec_available_matches(),
    {
        let mut r: Vec<PresetMatch> = Vec::new();
        let qs = FFmpegQuality::all();
        let all_accels = FFmpegHwAccel::all();
        push_codec_matches(&mut r, FFmpegCodec::H264, &all_accels, &qs);
        push_codec_matches(&mut r, FFmpegCodec::H265, &all_accels, &qs);
        let av1_accels = vec![FFmpegHwAccel::Amd];
        push_codec_matches(&mut r, FFmpegCodec::Av1, &av1_accels, &qs);
        assert(av1_accels@ =~= permitted_accels(FFmpegCodec::Av1));
        assert(r@ =~= spec_available_matches());
        r
    }
}

impl Default for FFmpegPreset {
    /// Copy video and audio as they are.
    fn default() -> (r: Self)
        ensures
            r@ == PresetModel::Custom(Some("-c:v copy -c:a copy"@)),
    {
        FFmpegPreset::Custom(Some(String::from_str("-c:v copy -c:a copy")))
    }
}

/// The catalog entry written as tokens: codec, then acceleration and quality
/// where present, joined by dashes.
pub open spec fn token_form(m: PresetMatch) -> Seq<char> {
    m.0.spec_name() + match m.1 {
        Some(h) => seq!['-'] + h.spec_name(),
        None => seq![],
    } + match m.2 {
        Some(q) => seq!['-'] + q.spec_name(),
        None => seq![],
    }
}

/// What the catalog entry does, in words.
pub open spec fn description(m: PresetMatch) -> Seq<char> {
    let lead = m.0.spec_name() + " encoded with "@;
    match (m.1, m.2) {
        (None, None) => m.0.spec_name() + " encoded with default video quality/compression"@,
        (Some(h), None) => lead + h.spec_name() + " hardware acceleration"@,
        (None, Some(q)) => lead + q.spec_name() + " video quality/compression"@,
        (Some(h), Some(q)) => lead + h.spec_name() + " hardware acceleration"@ + " and "@
            + q.spec_name() + " video quality/compression"@,
    }
}

/// `<tokens> (<description>)`.
pub open spec fn human_readable(m: PresetMatch) -> Seq<char> {
    token_form(m) + " ("@ + description(m) + ")"@
}

fn describe(m: PresetMatch) -> (r: String)
    ensures
        r@ == human_readable(m),
{
    let (c, h, q) = m;
    let mut tokens = String::from_str(c.name());
    let mut desc = String::from_str(c.name());
    desc.append(" encoded with ");
    match h {
        Some(h) => {
            tokens.append("-");
            tokens.append(h.name());
            desc.append(h.name());
            desc.append(" hardware acceleration");
            if q.is_some() {
                desc.append(" and ");
            }
        },
        None => {
            if q.is_none() {
                desc.append("default video quality/compression");
            }
        },
    }
    match q {
        Some(q) => {
            tokens.append("-");
            tokens.append(q.name());
            desc.append(q.name());
            desc.append(" video quality/compression");
        },
        None => {},
    }
    let mut r = tokens;
    r.append(" (");
    r.append(desc.as_str());
    r.append(")");
    proof {
        reveal_strlit("-");
        reveal_strlit(" encoded with ");
        reveal_strlit(" encoded with default video quality/compression");
        reveal_strlit("default video quality/compression");
    }
    assert(r@ =~= human_readable(m));
    r
}

impl FFmpegPreset {
    /// Each catalog entry as `<tokens> (<description>)`, in catalog order.
    pub fn available_matches_human_readable() -> (r: Vec<String>)
        ensures
            r@.len() == spec_available_matches().len(),
            forall|i: int|
                0 <= i < r@.len() ==> #[trigger] r@[i]@ == human_readable(
                    spec_available_matches()[i],
                ),
    {
        let all = FFmpegPreset::available_matches();
        let mut r: Vec<String> = Vec::new();
        let mut i: usize = 0;
        while i < all.len()
            invariant
                all@ == spec_available_matches(),
                0 <= i <= all@.len(),
                r@.len() == i,
                forall|j: int| 0 <= j < i ==> #[trigger] r@[j]@ == human_readable(all@[j]),
            decreases all.len() - i,
        {
            r.push(describe(all[i]));
            i += 1;
        }
        r
    }
}

} // verus!
