use mcp_servers::premiere::{
    conform_source, frames_to_timecode, infer_drop_frame, offset_frames, offset_timecode, read_timecode,
    sequence_duration, timecode_to_frames, Rate,
};
use mcp_servers::timecode::{TimecodeError, TimecodeFields};

fn df_2997() -> Rate {
    Rate::new(30, false, -30, true).unwrap()
}

#[test]
fn drop_frame_checkpoint_one_minute() {
    assert_eq!(df_2997().frames_to_timecode(1800), "00:01:00;02");
}

#[test]
fn drop_frame_checkpoint_ten_minutes() {
    assert_eq!(df_2997().frames_to_timecode(17982), "00:10:00;00");
}

#[test]
fn drop_frame_checkpoint_one_hour() {
    assert_eq!(df_2997().frames_to_timecode(107892), "01:00:00;00");
}

#[test]
fn drop_frame_reads_back_checkpoints() {
    for (tc, frames) in [("00:01:00;02", 1800u64), ("00:10:00;00", 17982), ("01:00:00;00", 107892)] {
        let (got, df) = timecode_to_frames(tc, 30, false, -30, None);
        assert!(df);
        assert_eq!(got, Ok(frames));
    }
}

#[test]
fn drop_frame_roundtrip_many_frames() {
    let rate = df_2997();
    for n in (0u64..200_000).step_by(7) {
        let tc = rate.frames_to_timecode(n);
        assert_eq!(read_timecode(&tc, 30, false, -30, true), Ok(n), "{tc}");
    }
}

#[test]
fn drop_frame_5994_roundtrip() {
    let rate = Rate::new(60, false, -60, true).unwrap();
    assert_eq!(rate.frames_to_timecode(3600), "00:01:00;04");
    for n in (0u64..400_000).step_by(13) {
        let tc = rate.frames_to_timecode(n);
        assert_eq!(read_timecode(&tc, 60, false, -60, true), Ok(n));
    }
}

#[test]
fn dropped_label_is_refused() {
    let (got, _) = timecode_to_frames("00:01:00;00", 30, false, -30, None);
    assert_eq!(
        got,
        Err(TimecodeError::DroppedLabel {
            fields: TimecodeFields { hh: 0, mm: 1, ss: 0, ff: 0 },
            dropped: 2
        })
    );
    let (tenth, _) = timecode_to_frames("00:10:00;00", 30, false, -30, None);
    assert_eq!(tenth, Ok(17982));
}

#[test]
fn drop_frame_needs_ntsc_rate() {
    assert_eq!(Rate::new(25, false, -25, true).unwrap_err(), TimecodeError::DropFrameRate);
    assert_eq!(Rate::new(30, true, 0, true).unwrap_err(), TimecodeError::DropFrameExactRate);
    assert_eq!(Rate::new(0, true, 0, false).unwrap_err(), TimecodeError::RateBelowOne);
}

#[test]
fn non_drop_formatting() {
    assert_eq!(frames_to_timecode(90061, 25, true, 0, false).unwrap(), "01:00:02:11");
    assert_eq!(frames_to_timecode(0, 24, true, 0, false).unwrap(), "00:00:00:00");
}

#[test]
fn field_errors() {
    assert_eq!(read_timecode("00:00:00", 24, true, 0, false), Err(TimecodeError::FieldCount));
    assert_eq!(
        read_timecode("00:0x:00:00", 24, true, 0, false),
        Err(TimecodeError::InvalidField("0x".to_string()))
    );
    assert_eq!(
        read_timecode("00:00:00:24", 24, true, 0, false),
        Err(TimecodeError::FrameOutOfRange { frame: 24, rate: 24 })
    );
    assert_eq!(read_timecode("00:60:00:00", 24, true, 0, false), Err(TimecodeError::MinutesSeconds));
    assert_eq!(
        read_timecode("99999999999999999:00:00:00", 24, true, 0, false),
        Err(TimecodeError::TooLarge)
    );
}

#[test]
fn offsets_clamp_at_zero() {
    assert_eq!(offset_frames(10, -20), 0);
    assert_eq!(offset_frames(10, 5), 15);
    assert_eq!(offset_frames(u64::MAX - 1, 5), u64::MAX);
    let out = offset_timecode("00:00:01:00", 24, true, 0, None, -30).unwrap();
    assert_eq!(out.start_frames, 24);
    assert_eq!(out.frames, 0);
    assert_eq!(out.timecode, "00:00:00:00");
}

#[test]
fn sequence_total() {
    let out = sequence_duration(&[24, 48, 100], 24, true, 0, false).unwrap();
    assert_eq!(out.total_frames, 172);
    assert_eq!(out.timecode, "00:00:07:04");
    assert_eq!(
        sequence_duration(&[u64::MAX, 1], 24, true, 0, false).unwrap_err(),
        TimecodeError::TotalOverflow
    );
}

#[test]
fn drop_frame_inferred_from_semicolon() {
    assert!(infer_drop_frame("00:00:00;00", None));
    assert!(!infer_drop_frame("00:00:00:00", None));
    assert!(!infer_drop_frame("00:00:00;00", Some(false)));
}

#[test]
fn conform_reads_source_and_target() {
    let (source, target) = conform_source("00:00:01:00", 24, true, 0, None, 30, false, -30, true).unwrap();
    assert_eq!(source, 24);
    assert_eq!(target.nominal(), 30);
    assert!(target.is_drop_frame());
}

#[test]
fn offsets_undo_each_other() {
    for (start, k) in [(100u64, 25i64), (0, 7), (5000, -4000)] {
        assert_eq!(offset_frames(offset_frames(start, k), -k), start);
    }
    assert_eq!(offset_frames(42, 0), 42);
    // A clamped move is not undone.
    assert_eq!(offset_frames(offset_frames(10, -20), 20), 20);
}

#[test]
fn drop_frame_only_at_ntsc_rates() {
    // 29.5 fps: nominal 30, fraction -500 thousandths.
    assert_eq!(Rate::new(30, false, -500, true).unwrap_err(), TimecodeError::DropFrameRate);
    assert_eq!(Rate::new(30, false, 20, true).unwrap_err(), TimecodeError::DropFrameRate);
    assert_eq!(Rate::new(60, false, -30, true).unwrap_err(), TimecodeError::DropFrameRate);
    assert!(Rate::new(30, false, -30, true).unwrap().is_drop_frame());
    assert!(Rate::new(60, false, -60, true).unwrap().is_drop_frame());
    // Without drop-frame any fraction is accepted.
    assert_eq!(Rate::new(30, false, -500, false).unwrap().nominal(), 30);
}

#[test]
fn drop_frame_at_a_nearly_exact_rate_is_an_exact_rate_error() {
    // 30.0006 fps: within 0.001 of 30, fraction 1 thousandth.
    assert_eq!(Rate::new(30, true, 1, true).unwrap_err(), TimecodeError::DropFrameExactRate);
}
