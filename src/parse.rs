//! Reading a preset from the text a user typed.

use vstd::prelude::*;
use crate::axes::{FFmpegCodec, FFmpegHwAccel, FFmpegQuality, is_word_char, word_char};
use crate::preset::{FFmpegPreset, PresetMatch, PresetModel, spec_available_matches};

verus! {

/// Why a preset text was rejected.
#[derive(Clone, Debug, PartialEq, Eq)]
pub enum PresetError {
    /// Two tokens name a codec: the first and the second.
    MultipleCodecs(FFmpegCodec, FFmpegCodec),
    /// Two tokens name a hardware acceleration: the first and the second.
    MultipleHwAccels(FFmpegHwAccel, FFmpegHwAccel),
    /// Two tokens name a quality: the first and the second.
    MultipleQualities(FFmpegQuality, FFmpegQuality),
    /// A token names nothing: the whole input, then the token.
    UnknownToken(String, String),
    /// No token names a codec.
    MissingCodec,
    /// The combination is not in the catalog.
    NotSupported,
}

/// What a [`PresetError`] stands for, with its text as characters.
pub ghost enum PresetErrorModel {
    MultipleCodecs(FFmpegCodec, FFmpegCodec),
    MultipleHwAccels(FFmpegHwAccel, FFmpegHwAccel),
    MultipleQualities(FFmpegQuality, FFmpegQuality),
    UnknownToken(Seq<char>, Seq<char>),
    MissingCodec,
    NotSupported,
}

impl View for PresetError {
    type V = PresetErrorModel;

    open spec fn view(&self) -> PresetErrorModel {
        match self {
            PresetError::MultipleCodecs(a, b) => PresetErrorModel::MultipleCodecs(*a, *b),
            PresetError::MultipleHwAccels(a, b) => PresetErrorModel::MultipleHwAccels(*a, *b),
            PresetError::MultipleQualities(a, b) => PresetErrorModel::MultipleQualities(*a, *b),
            PresetError::UnknownToken(s, t) => PresetErrorModel::UnknownToken(s@, t@),
            PresetError::MissingCodec => PresetErrorModel::MissingCodec,
            PresetError::NotSupported => PresetErrorModel::NotSupported,
        }
    }
}

/// What each axis has been given so far.
pub type Found = (Option<FFmpegCodec>, Option<FFmpegHwAccel>, Option<FFmpegQuality>);

pub open spec fn found_view(r: Result<Found, PresetError>) -> Result<Found, PresetErrorModel> {
    match r {
        Ok(f) => Ok(f),
        Err(e) => Err(e@),
    }
}

pub open spec fn parse_view(r: Result<FFmpegPreset, PresetError>) -> Result<
    PresetModel,
    PresetErrorModel,
> {
    match r {
        Ok(p) => Ok(p@),
        Err(e) => Err(e@),
    }
}

/// Runs of word characters (the regex class `\w`) joined by single dashes:
/// the shape of a predefined preset.
pub open spec fn is_preset_shaped(s: Seq<char>) -> bool {
    &&& s.len() > 0
    &&& s[0] != '-'
    &&& s.last() != '-'
    &&& forall|i: int| 0 <= i < s.len() ==> is_word_char(#[trigger] s[i]) || s[i] == '-'
    &&& forall|i: int| 0 <= i < s.len() - 1 ==> !(#[trigger] s[i] == '-' && s[i + 1] == '-')
}

/// The pieces of `s` between dashes, empty ones included.
pub open spec fn split_dash(s: Seq<char>) -> Seq<Seq<char>>
    decreases s.len(),
{
    if s.len() == 0 {
        seq![Seq::<char>::empty()]
    } else {
        let prev = split_dash(s.drop_last());
        if s.last() == '-' {
            prev.push(Seq::<char>::empty())
        } else {
            prev.update(prev.len() - 1, prev.last().push(s.last()))
        }
    }
}

/// Assigns one token to the first axis that has a name for it.
pub open spec fn resolve_token(input: Seq<char>, f: Found, tok: Seq<char>) -> Result<
    Found,
    PresetErrorModel,
> {
    match FFmpegCodec::spec_from_token(tok) {
        Some(c) => match f.0 {
            Some(prev) => Err(PresetErrorModel::MultipleCodecs(prev, c)),
            None => Ok((Some(c), f.1, f.2)),
        },
        None => match FFmpegHwAccel::spec_from_token(tok) {
            Some(h) => match f.1 {
                Some(prev) => Err(PresetErrorModel::MultipleHwAccels(prev, h)),
                None => Ok((f.0, Some(h), f.2)),
            },
            None => match FFmpegQuality::spec_from_token(tok) {
                Some(q) => match f.2 {
                    Some(prev) => Err(PresetErrorModel::MultipleQualities(prev, q)),
                    None => Ok((f.0, f.1, Some(q))),
                },
                None => Err(PresetErrorModel::UnknownToken(input, tok)),
            },
        },
    }
}

/// Assigns the tokens left to right; the first error stops it.
pub open spec fn resolve_tokens(input: Seq<char>, toks: Seq<Seq<char>>) -> Result<
    Found,
    PresetErrorModel,
>
    decreases toks.len(),
{
    if toks.len() == 0 {
        Ok((None, None, None))
    } else {
        match resolve_tokens(input, toks.drop_last()) {
            Err(e) => Err(e),
            Ok(f) => resolve_token(input, f, toks.last()),
        }
    }
}

/// The catalog holds the codec and acceleration with a quality present or not.
pub open spec fn is_supported(c: FFmpegCodec, h: Option<FFmpegHwAccel>, q: Option<FFmpegQuality>) -> bool {
    spec_available_matches().contains((c, h, q))
}

/// The preset that a text stands for: text of another shape is custom
/// arguments; otherwise each token names a codec, acceleration or quality.
pub open spec fn spec_parse(s: Seq<char>) -> Result<PresetModel, PresetErrorModel> {
    if !is_preset_shaped(s) {
        Ok(PresetModel::Custom(Some(s)))
    } else {
        match resolve_tokens(s, split_dash(s)) {
            Err(e) => Err(e),
            Ok((None, _, _)) => Err(PresetErrorModel::MissingCodec),
            Ok((Some(c), h, q)) => if is_supported(c, h, q) {
                Ok(
                    PresetModel::Predefined(
                        c,
                        h,
                        match q {
                            Some(q) => q,
                            None => FFmpegQuality::Normal,
                        },
                    ),
                )
            } else {
                Err(PresetErrorModel::NotSupported)
            },
        }
    }
}

fn preset_shaped(s: &str) -> (r: bool)
    ensures
        r == is_preset_shaped(s@),
{
    let n = s.unicode_len();
    if n == 0 {
        return false;
    }
    let mut i: usize = 0;
    while i < n
        invariant
            n == s@.len(),
            0 < n,
            0 <= i <= n,
            forall|j: int| 0 <= j < i && #[trigger] s@[j] == '-' ==> 0 < j < n - 1,
            forall|j: int| 0 <= j < i ==> is_word_char(#[trigger] s@[j]) || s@[j] == '-',
            forall|j: int| 0 <= j < i && j < n - 1 ==> !(#[trigger] s@[j] == '-' && s@[j + 1] == '-'),
        decreases n - i,
    {
        let c = s.get_char(i);
        if c != '-' && !word_char(c) {
            return false;
        }
        if c == '-' {
            if i == 0 || i == n - 1 {
                return false;
            }
            if s.get_char(i + 1) == '-' {
                return false;
            }
        }
        i += 1;
    }
    true
}

fn resolve_token_exec(input: &str, f: Found, tok: &str) -> (r: Result<Found, PresetError>)
    ensures
        found_view(r) == resolve_token(input@, f, tok@),
{
    if let Some(c) = FFmpegCodec::from_token(tok) {
        match f.0 {
            Some(prev) => Err(PresetError::MultipleCodecs(prev, c)),
            None => Ok((Some(c), f.1, f.2)),
        }
    } else if let Some(h) = FFmpegHwAccel::from_token(tok) {
        match f.1 {
            Some(prev) => Err(PresetError::MultipleHwAccels(prev, h)),
            None => Ok((f.0, Some(h), f.2)),
        }
    } else if let Some(q) = FFmpegQuality::from_token(tok) {
        match f.2 {
            Some(prev) => Err(PresetError::MultipleQualities(prev, q)),
            None => Ok((f.0, f.1, Some(q))),
        }
    } else {
        Err(PresetError::UnknownToken(String::from_str(input), String::from_str(tok)))
    }
}

fn same_accel(a: Option<FFmpegHwAccel>, b: Option<FFmpegHwAccel>) -> (r: bool)
    ensures
        r == (a == b),
{
    match (a, b) {
        (None, None) => true,
        (Some(x), Some(y)) => x == y,
        _ => false,
    }
}

fn same_quality(a: Option<FFmpegQuality>, b: Option<FFmpegQuality>) -> (r: bool)
    ensures
        r == (a == b),
{
    match (a, b) {
        (None, None) => true,
        (Some(x), Some(y)) => x == y,
        _ => false,
    }
}

fn supported(c: FFmpegCodec, h: Option<FFmpegHwAccel>, q: Option<FFmpegQuality>) -> (r: bool)
    ensures
        r == is_supported(c, h, q),
{
    let all = FFmpegPreset::available_matches();
    let mut i: usize = 0;
    while i < all.len()
        invariant
            all@ == spec_available_matches(),
            0 <= i <= all@.len(),
            forall|j: int| 0 <= j < i ==> all@[j] != (c, h, q),
        decreases all.len() - i,
    {
        let m: PresetMatch = all[i];
        if m.0 == c && same_accel(m.1, h) && same_quality(m.2, q) {
            assert(all@[i as int] == (c, h, q));
            return true;
        }
        i += 1;
    }
    false
}

/// `split_dash` of one more character: a dash starts a new piece, anything
/// else extends the last one.
proof fn lemma_split_step(s: Seq<char>, i: int, done: Seq<Seq<char>>, start: int)
    requires
        0 <= start <= i < s.len(),
        split_dash(s.take(i)) == done.push(s.subrange(start, i)),
    ensures
        s[i] == '-' ==> split_dash(s.take(i + 1)) == done.push(s.subrange(start, i)).push(
            s.subrange(i + 1, i + 1),
        ),
        s[i] != '-' ==> split_dash(s.take(i + 1)) == done.push(s.subrange(start, i + 1)),
{
    assert(s.take(i + 1).drop_last() =~= s.take(i));
    assert(s.subrange(i + 1, i + 1) =~= Seq::<char>::empty());
    assert(s.subrange(start, i).push(s[i]) =~= s.subrange(start, i + 1));
    if s[i] != '-' {
        assert(done.push(s.subrange(start, i)).update(done.len() as int, s.subrange(start, i + 1))
            =~= done.push(s.subrange(start, i + 1)));
    }
}

impl FFmpegPreset {
    /// Reads a preset from text. Text that is not word tokens joined by
    /// single dashes is taken as custom arguments; otherwise each token,
    /// ignoring ASCII case, names a codec, a hardware acceleration or a
    /// quality, and the combination must be in the catalog. Lowering ASCII
    /// letters alone matches full Unicode lowering here: of the other
    /// characters only the Kelvin sign lowers to ASCII text, `k`, which no
    /// name holds.
    pub fn parse(s: &str) -> (r: Result<FFmpegPreset, PresetError>)
        ensures
            parse_view(r) == spec_parse(s@),
    {
        if !preset_shaped(s) {
            return Ok(FFmpegPreset::Custom(Some(String::from_str(s))));
        }
        let n = s.unicode_len();
        let mut state: Result<Found, PresetError> = Ok((None, None, None));
        let ghost mut done: Seq<Seq<char>> = seq![];
        let mut start: usize = 0;
        let mut i: usize = 0;
        assert(s@.take(0) =~= Seq::<char>::empty());
        assert(s@.subrange(0, 0) =~= Seq::<char>::empty());
        assert(split_dash(s@.take(0)) =~= done.push(s@.subrange(0, 0)));
        while i < n
            invariant
                n == s@.len(),
                0 <= start <= i <= n,
                split_dash(s@.take(i as int)) == done.push(s@.subrange(start as int, i as int)),
                found_view(state) == resolve_tokens(s@, done),
            decreases n - i,
        {
            proof {
                lemma_split_step(s@, i as int, done, start as int);
            }
            if s.get_char(i) == '-' {
                let tok = s.substring_char(start, i);
                state = match state {
                    Ok(f) => resolve_token_exec(s, f, tok),
                    Err(e) => Err(e),
                };
                proof {
                    assert(done.push(tok@).drop_last() =~= done);
                    done = done.push(tok@);
                }
                start = i + 1;
            }
            i += 1;
        }
        let tok = s.substring_char(start, n);
        let last = match state {
            Ok(f) => resolve_token_exec(s, f, tok),
            Err(e) => Err(e),
        };
        proof {
            assert(s@.take(n as int) =~= s@);
            assert(done.push(tok@).drop_last() =~= done);
        }
        match last {
            Err(e) => Err(e),
            Ok(f) => match f.0 {
                None => Err(PresetError::MissingCodec),
                Some(c) => {
                    if supported(c, f.1, f.2) {
                        let q = match f.2 {
                            Some(q) => q,
                            None => FFmpegQuality::Normal,
                        };
                        Ok(FFmpegPreset::Predefined(c, f.1, q))
                    } else {
                        Err(PresetError::NotSupported)
                    }
                },
            },
        }
    }
}

/// The message that tells a user why the preset was rejected.
pub open spec fn error_message(e: PresetErrorModel) -> Seq<char> {
    match e {
        PresetErrorModel::MultipleCodecs(a, b) => "cannot use multiple codecs (found "@
            + a.spec_name() + " and "@ + b.spec_name() + ")"@,
        PresetErrorModel::MultipleHwAccels(a, b) => "cannot use multiple hardware accelerations (found "@
            + a.spec_name() + " and "@ + b.spec_name() + ")"@,
        PresetErrorModel::MultipleQualities(a, b) => "cannot use multiple ffmpeg preset qualities (found "@
            + a.spec_name() + " and "@ + b.spec_name() + ")"@,
        PresetErrorModel::UnknownToken(input, tok) => "'"@ + input
            + "' is not a valid ffmpeg preset (unknown token '"@ + tok + "')"@,
        PresetErrorModel::MissingCodec => "cannot use ffmpeg preset without a codec"@,
        PresetErrorModel::NotSupported => "ffmpeg preset is not supported"@,
    }
}

impl PresetError {
    /// The message that tells a user why the preset was rejected.
    pub fn message(&self) -> (r: String)
        ensures
            r@ == error_message(self@),
    {
        match self {
            PresetError::MultipleCodecs(a, b) => {
                let mut r = String::from_str("cannot use multiple codecs (found ");
                r.append(a.name());
                r.append(" and ");
                r.append(b.name());
                r.append(")");
                r
            },
            PresetError::MultipleHwAccels(a, b) => {
                let mut r = String::from_str("cannot use multiple hardware accelerations (found ");
                r.append(a.name());
                r.append(" and ");
                r.append(b.name());
                r.append(")");
                r
            },
            PresetError::MultipleQualities(a, b) => {
                let mut r = String::from_str("cannot use multiple ffmpeg preset qualities (found ");
                r.append(a.name());
                r.append(" and ");
                r.append(b.name());
                r.append(")");
                r
            },
            PresetError::UnknownToken(input, tok) => {
                let mut r = String::from_str("'");
                r.append(input.as_str());
                r.append("' is not a valid ffmpeg preset (unknown token '");
                r.append(tok.as_str());
                r.append("')");
                r
            },
            PresetError::MissingCodec => String::from_str("cannot use ffmpeg preset without a codec"),
            PresetError::NotSupported => String::from_str("ffmpeg preset is not supported"),
        }
    }
}

} // verus!
