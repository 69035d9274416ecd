use ffmpeg_preset::args::words_or_none;
use ffmpeg_preset::axes::{word_char, FFmpegCodec, FFmpegHwAccel, FFmpegQuality};
use ffmpeg_preset::parse::PresetError;
use ffmpeg_preset::preset::{FFmpegPreset, SOFTSUB_CONTAINERS};

fn strings(v: &[&str]) -> Vec<String> {
    v.iter().map(|s| s.to_string()).collect()
}

fn token_form(c: FFmpegCodec, h: Option<FFmpegHwAccel>, q: Option<FFmpegQuality>) -> String {
    let mut s = c.name().to_string();
    if let Some(h) = h {
        s.push('-');
        s.push_str(h.name());
    }
    if let Some(q) = q {
        s.push('-');
        s.push_str(q.name());
    }
    s
}

#[test]
fn catalog_entries_parse_back() {
    for (c, h, q) in FFmpegPreset::available_matches() {
        let text = token_form(c, h, q);
        let expected = FFmpegPreset::Predefined(c, h, q.unwrap_or(FFmpegQuality::Normal));
        assert_eq!(FFmpegPreset::parse(&text), Ok(expected), "{text}");
    }
}

#[test]
fn catalog_size_and_order() {
    let all = FFmpegPreset::available_matches();
    assert_eq!(all.len(), 40);
    assert_eq!(all[0], (FFmpegCodec::H264, None, None));
    assert_eq!(all[1], (FFmpegCodec::H264, Some(FFmpegHwAccel::Nvidia), None));
    assert_eq!(all[4], (FFmpegCodec::H264, None, Some(FFmpegQuality::Lossless)));
    assert_eq!(
        all[7],
        (FFmpegCodec::H264, Some(FFmpegHwAccel::Nvidia), Some(FFmpegQuality::Lossless))
    );
    assert_eq!(all[16], (FFmpegCodec::H265, None, None));
    assert_eq!(all[32], (FFmpegCodec::Av1, None, None));
    assert_eq!(all[33], (FFmpegCodec::Av1, Some(FFmpegHwAccel::Amd), None));
    assert_eq!(
        all[39],
        (FFmpegCodec::Av1, Some(FFmpegHwAccel::Amd), Some(FFmpegQuality::Low))
    );
}

#[test]
fn human_readable_entries() {
    let lines = FFmpegPreset::available_matches_human_readable();
    assert_eq!(lines.len(), 40);
    assert_eq!(lines[0], "h264 (h264 encoded with default video quality/compression)");
    assert_eq!(lines[1], "h264-nvidia (h264 encoded with nvidia hardware acceleration)");
    assert_eq!(lines[4], "h264-lossless (h264 encoded with lossless video quality/compression)");
    assert_eq!(
        lines[7],
        "h264-nvidia-lossless (h264 encoded with nvidia hardware acceleration and lossless video quality/compression)"
    );
    assert_eq!(
        lines[39],
        "av1-amd-low (av1 encoded with amd hardware acceleration and low video quality/compression)"
    );
}

#[test]
fn parse_ignores_case() {
    let expected = Ok(FFmpegPreset::Predefined(
        FFmpegCodec::H264,
        Some(FFmpegHwAccel::Nvidia),
        FFmpegQuality::Normal,
    ));
    assert_eq!(FFmpegPreset::parse("h264-nvidia"), expected);
    assert_eq!(FFmpegPreset::parse("H264-Nvidia"), expected);
    assert_eq!(FFmpegPreset::parse("H264-NVIDIA"), expected);
}

#[test]
fn parse_order_of_tokens_is_free() {
    assert_eq!(
        FFmpegPreset::parse("low-amd-H265"),
        Ok(FFmpegPreset::Predefined(
            FFmpegCodec::H265,
            Some(FFmpegHwAccel::Amd),
            FFmpegQuality::Low
        ))
    );
}

#[test]
fn parse_duplicate_codec() {
    let err = FFmpegPreset::parse("h264-h264").unwrap_err();
    assert_eq!(err, PresetError::MultipleCodecs(FFmpegCodec::H264, FFmpegCodec::H264));
    assert_eq!(err.message(), "cannot use multiple codecs (found h264 and h264)");
}

#[test]
fn parse_duplicate_accel_and_quality() {
    let err = FFmpegPreset::parse("h264-nvidia-amd").unwrap_err();
    assert_eq!(err, PresetError::MultipleHwAccels(FFmpegHwAccel::Nvidia, FFmpegHwAccel::Amd));
    assert_eq!(
        err.message(),
        "cannot use multiple hardware accelerations (found nvidia and amd)"
    );
    let err = FFmpegPreset::parse("h265-low-lossless").unwrap_err();
    assert_eq!(
        err,
        PresetError::MultipleQualities(FFmpegQuality::Low, FFmpegQuality::Lossless)
    );
    assert_eq!(
        err.message(),
        "cannot use multiple ffmpeg preset qualities (found low and lossless)"
    );
}

#[test]
fn parse_av1_nvidia_not_supported() {
    let err = FFmpegPreset::parse("av1-nvidia").unwrap_err();
    assert_eq!(err, PresetError::NotSupported);
    assert_eq!(err.message(), "ffmpeg preset is not supported");
    assert_eq!(FFmpegPreset::parse("av1-apple-low"), Err(PresetError::NotSupported));
}

#[test]
fn parse_unknown_token() {
    let err = FFmpegPreset::parse("h264-fast").unwrap_err();
    assert_eq!(
        err,
        PresetError::UnknownToken("h264-fast".to_string(), "fast".to_string())
    );
    assert_eq!(
        err.message(),
        "'h264-fast' is not a valid ffmpeg preset (unknown token 'fast')"
    );
}

#[test]
fn parse_missing_codec() {
    let err = FFmpegPreset::parse("nvidia-low").unwrap_err();
    assert_eq!(err, PresetError::MissingCodec);
    assert_eq!(err.message(), "cannot use ffmpeg preset without a codec");
}

#[test]
fn parse_other_shapes_are_custom() {
    for text in ["", "-c:v copy -c:a copy", "h264--nvidia", "h264-", "-h264", "h264 nvidia"] {
        assert_eq!(
            FFmpegPreset::parse(text),
            Ok(FFmpegPreset::Custom(Some(text.to_string())))
        );
    }
}

#[test]
fn compile_h264_low() {
    let (input, output) =
        FFmpegPreset::Predefined(FFmpegCodec::H264, None, FFmpegQuality::Low).into_input_output_args();
    assert!(input.is_empty());
    assert_eq!(output, strings(&["-crf", "35", "-c:v", "libx264", "-c:a", "copy"]));
}

#[test]
fn compile_h265_nvidia_lossless() {
    let (input, output) = FFmpegPreset::Predefined(
        FFmpegCodec::H265,
        Some(FFmpegHwAccel::Nvidia),
        FFmpegQuality::Lossless,
    )
    .into_input_output_args();
    assert_eq!(
        input,
        strings(&["-hwaccel", "cuda", "-hwaccel_output_format", "cuda", "-c:v", "h264_cuvid"])
    );
    assert_eq!(
        output,
        strings(&["-crf", "20", "-c:v", "hevc_nvenc", "-c:a", "copy", "-tag:v", "hvc1"])
    );
}

#[test]
fn compile_apple_uses_q_scale() {
    let (input, output) = FFmpegPreset::Predefined(
        FFmpegCodec::H264,
        Some(FFmpegHwAccel::Apple),
        FFmpegQuality::Lossless,
    )
    .into_input_output_args();
    assert!(input.is_empty());
    assert_eq!(
        output,
        strings(&["-q:v", "65", "-c:v", "h264_videotoolbox", "-c:a", "copy"])
    );
    let (_, output) = FFmpegPreset::Predefined(
        FFmpegCodec::H265,
        Some(FFmpegHwAccel::Apple),
        FFmpegQuality::Low,
    )
    .into_input_output_args();
    assert_eq!(
        output,
        strings(&["-q:v", "32", "-c:v", "hevc_videotoolbox", "-c:a", "copy", "-tag:v", "hvc1"])
    );
}

#[test]
fn compile_h265_amd_normal() {
    let (input, output) = FFmpegPreset::Predefined(
        FFmpegCodec::H265,
        Some(FFmpegHwAccel::Amd),
        FFmpegQuality::Normal,
    )
    .into_input_output_args();
    assert!(input.is_empty());
    assert_eq!(
        output,
        strings(&["-c:v", "hevc_amf", "-c:a", "copy", "-tag:v", "hvc1"])
    );
}

#[test]
fn compile_av1() {
    let (input, output) = FFmpegPreset::Predefined(
        FFmpegCodec::Av1,
        Some(FFmpegHwAccel::Amd),
        FFmpegQuality::Lossless,
    )
    .into_input_output_args();
    assert!(input.is_empty());
    assert_eq!(output, strings(&["-crf", "22", "-c:v", "av1_amf", "-c:a", "copy"]));
    let (_, output) =
        FFmpegPreset::Predefined(FFmpegCodec::Av1, None, FFmpegQuality::Normal).into_input_output_args();
    assert_eq!(output, strings(&["-c:v", "libsvtav1", "-c:a", "copy"]));
}

#[test]
fn compile_custom() {
    let (input, output) = FFmpegPreset::Custom(None).into_input_output_args();
    assert!(input.is_empty());
    assert!(output.is_empty());
    let (input, output) =
        FFmpegPreset::Custom(Some("-c:v copy -c:a copy".to_string())).into_input_output_args();
    assert!(input.is_empty());
    assert_eq!(output, strings(&["-c:v", "copy", "-c:a", "copy"]));
}

#[test]
fn compile_custom_quotes_and_errors() {
    let (_, output) = FFmpegPreset::Custom(Some("-metadata title='a b'".to_string()))
        .into_input_output_args();
    assert_eq!(output, strings(&["-metadata", "title=a b"]));
    let (_, output) =
        FFmpegPreset::Custom(Some("-metadata 'unclosed".to_string())).into_input_output_args();
    assert!(output.is_empty());
}

#[test]
fn default_is_stream_copy() {
    let preset = FFmpegPreset::default();
    assert_eq!(preset, FFmpegPreset::Custom(Some("-c:v copy -c:a copy".to_string())));
    let (input, output) = preset.into_input_output_args();
    assert!(input.is_empty());
    assert_eq!(output, strings(&["-c:v", "copy", "-c:a", "copy"]));
}

#[test]
fn axes_in_canonical_order() {
    assert_eq!(FFmpegCodec::all(), vec![FFmpegCodec::H264, FFmpegCodec::H265, FFmpegCodec::Av1]);
    assert_eq!(
        FFmpegHwAccel::all(),
        vec![FFmpegHwAccel::Nvidia, FFmpegHwAccel::Amd, FFmpegHwAccel::Apple]
    );
    assert_eq!(
        FFmpegQuality::all(),
        vec![FFmpegQuality::Lossless, FFmpegQuality::Normal, FFmpegQuality::Low]
    );
    assert_eq!(FFmpegCodec::Av1.name(), "av1");
    assert_eq!(FFmpegHwAccel::Apple.name(), "apple");
    assert_eq!(FFmpegQuality::Lossless.name(), "lossless");
    assert!(FFmpegCodec::H264 < FFmpegCodec::Av1);
}

#[test]
fn softsub_containers() {
    assert_eq!(SOFTSUB_CONTAINERS, ["mkv", "mov", "mp4"]);
}

#[test]
fn parse_unicode_word_tokens_are_rejected() {
    for (text, token) in [("é", "é"), ("h264-ñ", "ñ"), ("h264-\u{663}", "\u{663}"), ("Ünicode", "Ünicode")] {
        assert_eq!(
            FFmpegPreset::parse(text),
            Err(PresetError::UnknownToken(text.to_string(), token.to_string())),
            "{text}"
        );
    }
    assert_eq!(
        FFmpegPreset::parse("h264 é"),
        Ok(FFmpegPreset::Custom(Some("h264 é".to_string())))
    );
}

#[test]
fn word_characters() {
    for c in ['a', 'Z', '0', '_', 'é', 'ñ', '\u{663}'] {
        assert!(word_char(c), "{c}");
    }
    for c in ['-', ' ', ':', '\'', '€'] {
        assert!(!word_char(c), "{c}");
    }
}

#[test]
fn axes_from_exact_names() {
    assert_eq!(FFmpegCodec::from_name("H264"), Ok(FFmpegCodec::H264));
    assert_eq!(FFmpegCodec::from_name("Av1"), Ok(FFmpegCodec::Av1));
    assert_eq!(
        FFmpegCodec::from_name("h264"),
        Err("h264 is not a valid ffmpegcodec".to_string())
    );
    assert_eq!("Apple".parse::<FFmpegHwAccel>(), Ok(FFmpegHwAccel::Apple));
    assert_eq!(
        "apple".parse::<FFmpegHwAccel>(),
        Err("apple is not a valid ffmpeghwaccel".to_string())
    );
    assert_eq!("Normal".parse::<FFmpegQuality>(), Ok(FFmpegQuality::Normal));
    assert_eq!(
        FFmpegQuality::from_name("High"),
        Err("High is not a valid ffmpegquality".to_string())
    );
}

#[test]
fn words_or_none_cases() {
    assert!(words_or_none(None).is_empty());
    assert_eq!(words_or_none(Some(strings(&["-c:v", "copy"]))), strings(&["-c:v", "copy"]));
}
