//! Turning a preset into ffmpeg's input-side and output-side arguments.

use vstd::prelude::*;
use crate::axes::{FFmpegCodec, FFmpegHwAccel, FFmpegQuality};
use crate::preset::{FFmpegPreset, PresetModel};

verus! {

/// The text of each string, in order.
pub open spec fn strings_view(v: Seq<String>) -> Seq<Seq<char>> {
    v.map_values(|s: String| s@)
}

/// The words that POSIX-shell splitting finds in `s`, or `None` where `s` is
/// malformed (an unclosed quote, a trailing backslash).
pub uninterp spec fn shell_words(s: Seq<char>) -> Option<Seq<Seq<char>>>;

/// The text of each word, where there are words.
pub open spec fn words_view(r: Option<Vec<String>>) -> Option<Seq<Seq<char>>> {
    match r {
        Some(v) => Some(strings_view(v@)),
        None => None,
    }
}

/// Relies on `shlex::split`: shell-style word splitting of the whole input,
/// `None` where the input is erroneous; an empty input has no words.
#[verifier::external_body]
fn shell_split(s: &str) -> (r: Option<Vec<String>>)
    ensures
        words_view(r) == shell_words(s@),
        s@.len() == 0 ==> words_view(r) == Some(Seq::<Seq<char>>::empty()),
{
    shlex::split(s)
}

/// The output arguments of a custom preset: its words, or none where the
/// text does not split.
pub open spec fn custom_output_args(raw: Option<Seq<char>>) -> Seq<Seq<char>> {
    match raw {
        None => seq![],
        Some(s) => match shell_words(s) {
            Some(w) => w,
            None => seq![],
        },
    }
}

/// Apple's VideoToolbox encoders take `-q:v` on a 1-100 scale instead of `-crf`.
pub open spec fn uses_q_scale(c: FFmpegCodec, h: Option<FFmpegHwAccel>) -> bool {
    h == Some(FFmpegHwAccel::Apple) && c != FFmpegCodec::Av1
}

/// The rate-control value of a non-default quality tier.
pub open spec fn quality_value(c: FFmpegCodec, h: Option<FFmpegHwAccel>, q: FFmpegQuality) -> Seq<
    char,
> {
    let lossless = q == FFmpegQuality::Lossless;
    match c {
        FFmpegCodec::H264 => if uses_q_scale(c, h) {
            if lossless { "65"@ } else { "32"@ }
        } else {
            if lossless { "18"@ } else { "35"@ }
        },
        FFmpegCodec::H265 => if uses_q_scale(c, h) {
            if lossless { "61"@ } else { "32"@ }
        } else {
            if lossless { "20"@ } else { "35"@ }
        },
        FFmpegCodec::Av1 => if lossless { "22"@ } else { "35"@ },
    }
}

/// The quality flag pair that opens the output arguments; none for `Normal`.
pub open spec fn spec_quality_args(
    c: FFmpegCodec,
    h: Option<FFmpegHwAccel>,
    q: FFmpegQuality,
) -> Seq<Seq<char>> {
    if q == FFmpegQuality::Normal {
        seq![]
    } else if uses_q_scale(c, h) {
        seq!["-q:v"@, quality_value(c, h, q)]
    } else {
        seq!["-crf"@, quality_value(c, h, q)]
    }
}

/// The encoder that ffmpeg is told to use.
pub open spec fn encoder_name(c: FFmpegCodec, h: Option<FFmpegHwAccel>) -> Seq<char> {
    match c {
        FFmpegCodec::H264 => match h {
            None => "libx264"@,
            Some(FFmpegHwAccel::Nvidia) => "h264_nvenc"@,
            Some(FFmpegHwAccel::Amd) => "h264_amf"@,
            Some(FFmpegHwAccel::Apple) => "h264_videotoolbox"@,
        },
        FFmpegCodec::H265 => match h {
            None => "libx265"@,
            Some(FFmpegHwAccel::Nvidia) => "hevc_nvenc"@,
            Some(FFmpegHwAccel::Amd) => "hevc_amf"@,
            Some(FFmpegHwAccel::Apple) => "hevc_videotoolbox"@,
        },
        FFmpegCodec::Av1 => if h == Some(FFmpegHwAccel::Amd) {
            "av1_amf"@
        } else {
            "libsvtav1"@
        },
    }
}

/// The codec group of the output arguments: the video encoder, audio copied,
/// and for H.265 the `hvc1` tag.
pub open spec fn spec_encoder_args(c: FFmpegCodec, h: Option<FFmpegHwAccel>) -> Seq<Seq<char>> {
    let base = seq!["-c:v"@, encoder_name(c, h), "-c:a"@, "copy"@];
    if c == FFmpegCodec::H265 {
        base + seq!["-tag:v"@, "hvc1"@]
    } else {
        base
    }
}

/// Input-side arguments: CUDA decoding for Nvidia with H.264 or H.265.
pub open spec fn spec_input_args(c: FFmpegCodec, h: Option<FFmpegHwAccel>) -> Seq<Seq<char>> {
    if h == Some(FFmpegHwAccel::Nvidia) && c != FFmpegCodec::Av1 {
        seq!["-hwaccel"@, "cuda"@, "-hwaccel_output_format"@, "cuda"@, "-c:v"@, "h264_cuvid"@]
    } else {
        seq![]
    }
}

/// The output-side arguments of a predefined preset.
pub open spec fn spec_output_args(
    c: FFmpegCodec,
    h: Option<FFmpegHwAccel>,
    q: FFmpegQuality,
) -> Seq<Seq<char>> {
    spec_quality_args(c, h, q) + spec_encoder_args(c, h)
}

/// The split words, or no arguments where the text did not split.
pub fn words_or_none(words: Option<Vec<String>>) -> (r: Vec<String>)
    ensures
        strings_view(r@) == match words_view(words) {
            Some(w) => w,
            None => seq![],
        },
{
    match words {
        Some(w) => w,
        None => {
            let r: Vec<String> = Vec::new();
            assert(strings_view(r@) =~= seq![]);
            r
        },
    }
}

fn push_arg(v: &mut Vec<String>, a: &str)
    ensures
        strings_view(final(v)@) == strings_view(old(v)@).push(a@),
{
    v.push(String::from_str(a));
    assert(strings_view(v@) =~= strings_view(old(v)@).push(a@));
}

fn push_quality(out: &mut Vec<String>, c: FFmpegCodec, h: Option<FFmpegHwAccel>, q: FFmpegQuality)
    ensures
        strings_view(final(out)@) == strings_view(old(out)@) + spec_quality_args(c, h, q),
{
    let q_scale = match h {
        Some(FFmpegHwAccel::Apple) => c != FFmpegCodec::Av1,
        _ => false,
    };
    let lossless = match q {
        FFmpegQuality::Lossless => true,
        _ => false,
    };
    match q {
        FFmpegQuality::Normal => {
            assert(strings_view(out@) =~= strings_view(out@) + spec_quality_args(c, h, q));
            return ;
        },
        _ => {},
    }
    let value = match c {
        FFmpegCodec::H264 => if q_scale {
            if lossless { "65" } else { "32" }
        } else {
            if lossless { "18" } else { "35" }
        },
        FFmpegCodec::H265 => if q_scale {
            if lossless { "61" } else { "32" }
        } else {
            if lossless { "20" } else { "35" }
        },
        FFmpegCodec::Av1 => if lossless { "22" } else { "35" },
    };
    if q_scale {
        push_arg(out, "-q:v");
    } else {
        push_arg(out, "-crf");
    }
    push_arg(out, value);
    assert(strings_view(out@) =~= strings_view(old(out)@) + spec_quality_args(c, h, q));
}

fn push_encoder(out: &mut Vec<String>, c: FFmpegCodec, h: Option<FFmpegHwAccel>)
    ensures
        strings_view(final(out)@) == strings_view(old(out)@) + spec_encoder_args(c, h),
{
    let encoder = match c {
        FFmpegCodec::H264 => match h {
            None => "libx264",
            Some(FFmpegHwAccel::Nvidia) => "h264_nvenc",
            Some(FFmpegHwAccel::Amd) => "h264_amf",
            Some(FFmpegHwAccel::Apple) => "h264_videotoolbox",
        },
        FFmpegCodec::H265 => match h {
            None => "libx265",
            Some(FFmpegHwAccel::Nvidia) => "hevc_nvenc",
            Some(FFmpegHwAccel::Amd) => "hevc_amf",
            Some(FFmpegHwAccel::Apple) => "hevc_videotoolbox",
        },
        FFmpegCodec::Av1 => match h {
            Some(FFmpegHwAccel::Amd) => "av1_amf",
            _ => "libsvtav1",
        },
    };
    push_arg(out, "-c:v");
    push_arg(out, encoder);
    push_arg(out, "-c:a");
    push_arg(out, "copy");
    match c {
        FFmpegCodec::H265 => {
            push_arg(out, "-tag:v");
            push_arg(out, "hvc1");
        },
        _ => {},
    }
    assert(strings_view(out@) =~= strings_view(old(out)@) + spec_encoder_args(c, h));
}

impl FFmpegPreset {
    /// The arguments that go before ffmpeg's input, and those that go after it.
    pub fn into_input_output_args(self) -> (r: (Vec<String>, Vec<String>))
        ensures
            match self@ {
                PresetModel::Custom(raw) => r.0@.len() == 0 && strings_view(r.1@)
                    == custom_output_args(raw),
                PresetModel::Predefined(c, h, q) => strings_view(r.0@) == spec_input_args(c, h)
                    && strings_view(r.1@) == spec_output_args(c, h, q),
            },
    {
        match self {
            FFmpegPreset::Custom(None) => {
                let out: Vec<String> = Vec::new();
                assert(strings_view(out@) =~= seq![]);
                (Vec::new(), out)
            },
            FFmpegPreset::Custom(Some(raw)) => {
                let out = words_or_none(shell_split(raw.as_str()));
                (Vec::new(), out)
            },
            FFmpegPreset::Predefined(c, h, q) => {
                let mut input: Vec<String> = Vec::new();
                let mut output: Vec<String> = Vec::new();
                let cuda = match h {
                    Some(FFmpegHwAccel::Nvidia) => c != FFmpegCodec::Av1,
                    _ => false,
                };
                if cuda {
                    push_arg(&mut input, "-hwaccel");
                    push_arg(&mut input, "cuda");
                    push_arg(&mut input, "-hwaccel_output_format");
                    push_arg(&mut input, "cuda");
                    push_arg(&mut input, "-c:v");
                    push_arg(&mut input, "h264_cuvid");
                }
                assert(strings_view(input@) =~= spec_input_args(c, h));
                push_quality(&mut output, c, h, q);
                push_encoder(&mut output, c, h);
                assert(strings_view(output@) =~= spec_output_args(c, h, q));
                (input, output)
            },
        }
    }
}

} // verus!
