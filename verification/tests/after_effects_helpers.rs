use mcp_servers::after_effects::helpers::{
    effect_template_json, expression_code, frames_to_timecode, parse_hex, timecode_to_frames, validate_rate,
    EffectTemplate, ExpressionKind, HexError, BOUNCE_EXPRESSION,
};
use mcp_servers::timecode::{TimecodeError, TimecodeFields};

#[test]
fn non_drop_timecode_of_frames() {
    assert_eq!(frames_to_timecode(0, 24).unwrap(), "00:00:00:00");
    assert_eq!(frames_to_timecode(90061, 25).unwrap(), "01:00:02:11");
    assert_eq!(frames_to_timecode(1799, 30).unwrap(), "00:00:59:29");
    assert_eq!(frames_to_timecode(24 * 3600 * 120, 24).unwrap(), "120:00:00:00");
    assert_eq!(frames_to_timecode(10, 0).unwrap_err(), TimecodeError::RateBelowOne);
}

#[test]
fn frames_of_non_drop_timecode() {
    assert_eq!(timecode_to_frames("01:00:02:11", 25), Ok(90061));
    assert_eq!(timecode_to_frames("00:00:01;05", 24), Ok(29));
    assert_eq!(timecode_to_frames("00:00:00:24", 24), Err(TimecodeError::FrameOutOfRange { frame: 24, rate: 24 }));
    assert_eq!(timecode_to_frames("00:00:60:00", 24), Err(TimecodeError::MinutesSeconds));
    assert_eq!(timecode_to_frames("1:2:3", 24), Err(TimecodeError::FieldCount));
    assert_eq!(timecode_to_frames("a:00:00:00", 24), Err(TimecodeError::InvalidField("a".to_string())));
    assert_eq!(timecode_to_frames("00:00:00:00", 0), Err(TimecodeError::RateBelowOne));
    assert_eq!(timecode_to_frames("5124095576030432:00:00:00", 1), Err(TimecodeError::TooLarge));
}

#[test]
fn timecode_roundtrip_at_whole_rates() {
    for rate in [1u64, 23, 24, 25, 30, 50, 60, 120] {
        for n in (0u64..500_000).step_by(997) {
            let tc = frames_to_timecode(n, rate).unwrap();
            assert_eq!(timecode_to_frames(&tc, rate), Ok(n), "{tc} at {rate}");
        }
    }
}

#[test]
fn rate_validation() {
    assert_eq!(validate_rate(24), Ok(24));
    assert_eq!(validate_rate(0), Err(TimecodeError::RateBelowOne));
}

#[test]
fn error_messages() {
    assert_eq!(
        TimecodeError::FrameOutOfRange { frame: 30, rate: 30 }.message(),
        "frame field 30 is out of range for 30 fps"
    );
    assert_eq!(TimecodeError::InvalidField("1x".to_string()).message(), "invalid timecode field \"1x\"");
    assert_eq!(TimecodeError::FieldCount.message(), "timecode must have four fields: HH:MM:SS:FF");
    assert_eq!(
        TimecodeError::DroppedLabel { fields: TimecodeFields { hh: 0, mm: 1, ss: 0, ff: 0 }, dropped: 2 }.message(),
        "00:01:00;00 is not a valid drop-frame timecode (frames 0..2 are dropped at this minute)"
    );
    assert_eq!(TimecodeError::TooLarge.message(), "timecode is too large to convert");
    assert_eq!(TimecodeError::TotalOverflow.message(), "total frame count overflowed");
    assert_eq!(TimecodeError::RateBelowOne.message(), "fps must round to at least 1 frame per second");
}

#[test]
fn hex_colours() {
    assert_eq!(parse_hex("#ff8000"), Ok((255, 128, 0, 255)));
    assert_eq!(parse_hex("  0A0B0C80 "), Ok((10, 11, 12, 128)));
    assert_eq!(parse_hex("#f80"), Ok((255, 136, 0, 255)));
    assert_eq!(parse_hex("#ggg"), Err(HexError::NotHexDigits));
    assert_eq!(parse_hex("#12345"), Err(HexError::BadLength));
    assert_eq!(parse_hex(""), Err(HexError::BadLength));
    assert_eq!(parse_hex("##fff"), Err(HexError::NotHexDigits));
}

#[test]
fn expressions() {
    assert_eq!(expression_code(ExpressionKind::Wiggle, "2", "30"), "wiggle(2, 30);");
    assert_eq!(expression_code(ExpressionKind::TimeDrive, "360", "30"), "time * 360;");
    assert_eq!(expression_code(ExpressionKind::LoopOut, "1", "1"), "loopOut(\"cycle\");");
    assert_eq!(expression_code(ExpressionKind::Bounce, "1", "1"), BOUNCE_EXPRESSION);
    assert!(BOUNCE_EXPRESSION.starts_with("// Bounce settle after last keyframe\namp = 0.1;"));
}

#[test]
fn effect_templates() {
    assert_eq!(
        effect_template_json(EffectTemplate::GaussianBlur),
        r#"[{"match_name":"ADBE Gaussian Blur 2","settings":{"Blurriness":20}}]"#
    );
    assert!(effect_template_json(EffectTemplate::TextPop).contains("\"Glow Intensity\":1.5"));
    assert_eq!(EffectTemplate::CinematicLook.name(), "cinematic-look");
    assert_eq!(EffectTemplate::BrightnessContrast.name(), "brightness-contrast");
    for t in [EffectTemplate::Curves, EffectTemplate::Glow, EffectTemplate::DropShadow, EffectTemplate::DirectionalBlur, EffectTemplate::ColorBalance] {
        let v: serde_json::Value = serde_json::from_str(effect_template_json(t)).unwrap();
        assert!(v.as_array().map(|a| !a.is_empty()).unwrap_or(false));
    }
}

#[test]
fn invalid_field_text() {
    assert_eq!(mcp_servers::timecode::invalid_field_message("\"9x\""), "invalid timecode field \"9x\"");
}
