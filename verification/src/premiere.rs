//! Premiere Pro timecode and sequence arithmetic.
//!
//! The centre is SMPTE drop-frame timecode (29.97 / 59.94 fps): drop-frame
//! labels skip two (or four) frame numbers at every minute boundary except
//! every tenth minute, so the label count runs ahead of the frame count. A
//! [`Rate`] converts in both directions; every conversion is total over the
//! valid rates and timecodes, and the two directions undo each other.
use vstd::prelude::*;
use vstd::arithmetic::div_mod::{lemma_fundamental_div_mod, lemma_fundamental_div_mod_converse, lemma_div_denominator};
use crate::timecode::{TimecodeError, TimecodeFields, parse_fields_spec, render_fields, split_fields};
use crate::text::chars_of;

verus! {

/// The largest nominal rate a fractional `f64` frame rate can round to:
/// every `f64` of `2^52` or more is a whole number.
pub const FRACTIONAL_RATE_LIMIT: u64 = 4503599627370496;

/// A validated frame rate: the nominal whole rate (24, 25, 30, 60, ...) and
/// the number of frame labels dropped at each non-tenth minute boundary
/// (`0` for non-drop).
#[derive(Clone, Copy, Debug)]
pub struct Rate {
    nominal: u64,
    drop_per_min: u64,
}

/// A well-formed rate: at least one frame per second, and drop-frame only on
/// a multiple of 30 fps, dropping `nominal / 15` labels per minute.
pub open spec fn rate_wf(nominal: nat, drop: nat) -> bool {
    &&& nominal >= 1
    &&& (drop == 0 || (nominal % 30 == 0 && drop == nominal / 15 && nominal <= FRACTIONAL_RATE_LIMIT))
}

/// Frames in a ten-minute block of drop-frame counting.
pub open spec fn frames_per_ten_minutes(nominal: nat, drop: nat) -> nat {
    (nominal * 600 - 9 * drop) as nat
}

/// Frames in a minute that drops labels.
pub open spec fn frames_per_minute(nominal: nat, drop: nat) -> nat {
    (nominal * 60 - drop) as nat
}

/// The label count of frame `n`: `n` plus every label that drop-frame
/// counting has skipped up to it.
pub open spec fn label_count(nominal: nat, drop: nat, n: nat) -> nat {
    if drop == 0 {
        n
    } else {
        let per_ten = frames_per_ten_minutes(nominal, drop);
        let per_min = frames_per_minute(nominal, drop);
        let tens = n / per_ten;
        let rem = n % per_ten;
        let extra = if rem >= drop { 9 * drop * tens + drop * ((rem - drop) as nat / per_min) } else { 9 * drop * tens };
        n + extra
    }
}

/// `x` clamped to the `u64` range from above.
pub open spec fn saturate(x: nat) -> u64 {
    if x > u64::MAX { u64::MAX } else { x as u64 }
}

/// The timecode fields of a label count at `nominal` fps.
pub open spec fn split_count(count: nat, nominal: nat) -> TimecodeFields {
    TimecodeFields {
        hh: (count / nominal / 3600) as u64,
        mm: ((count / nominal / 60) % 60) as u64,
        ss: ((count / nominal) % 60) as u64,
        ff: (count % nominal) as u64,
    }
}

/// The total minutes a label names.
pub open spec fn total_minutes(f: TimecodeFields) -> nat {
    f.hh as nat * 60 + f.mm as nat
}

/// The label count a timecode names, as if no label were ever dropped.
pub open spec fn base_count(f: TimecodeFields, nominal: nat) -> nat {
    (f.hh as nat * 3600 + f.mm as nat * 60 + f.ss as nat) * nominal + f.ff as nat
}

/// What converting the fields `f` to a frame number at this rate gives.
pub open spec fn frames_of(nominal: nat, drop: nat, f: TimecodeFields) -> Result<u64, TimecodeError> {
    if f.ff >= nominal {
        Err(TimecodeError::FrameOutOfRange { frame: f.ff, rate: nominal as u64 })
    } else if f.ss >= 60 || f.mm >= 60 {
        Err(TimecodeError::MinutesSeconds)
    } else if drop > 0 && f.ss == 0 && f.mm % 10 != 0 && f.ff < drop {
        Err(TimecodeError::DroppedLabel { fields: f, dropped: drop as u64 })
    } else if base_count(f, nominal) > u64::MAX {
        Err(TimecodeError::TooLarge)
    } else {
        let m = total_minutes(f);
        Ok((base_count(f, nominal) - drop * (m - m / 10)) as u64)
    }
}

/// Whether a rate with this nominal rate and fraction (`fps - nominal` in
/// thousandths, rounded) is the NTSC rate `nominal * 1000 / 1001`, such as
/// 29.97 (fraction -30) or 59.94 (fraction -60).
pub open spec fn ntsc_fraction(nominal: u64, fraction: i64) -> bool {
    fraction == -(nominal as int)
}

impl Rate {
    /// The nominal whole frames per second.
    pub closed spec fn nominal_rate(self) -> nat {
        self.nominal as nat
    }

    /// Labels dropped per non-tenth minute (`0` for non-drop).
    pub closed spec fn dropped_per_minute(self) -> nat {
        self.drop_per_min as nat
    }

    #[verifier::type_invariant]
    closed spec fn inv(self) -> bool {
        rate_wf(self.nominal as nat, self.drop_per_min as nat)
    }

    /// Validates a frame rate given its nominal whole rate (`fps.round()`),
    /// whether `fps` lies within 0.001 of it (`exact`), and its fraction:
    /// `fps - nominal` in thousandths, rounded.
    ///
    /// Drop-frame is only meaningful for the NTSC rates: a nominal rate that
    /// is a multiple of 30, slowed by 1000/1001 (29.97, 59.94), whose
    /// fraction is minus the nominal rate. Asking for it at 24 or 25 fps, at
    /// an exact rate, or at another fractional rate such as 29.5 is an
    /// error.
    pub fn new(nominal: u64, exact: bool, fraction: i64, drop_frame: bool) -> (out: Result<Rate, TimecodeError>)
        requires
            !exact ==> nominal <= FRACTIONAL_RATE_LIMIT,
        ensures
            nominal < 1 ==> out == Err::<Rate, TimecodeError>(TimecodeError::RateBelowOne),
            nominal >= 1 && drop_frame && nominal % 30 != 0
                ==> out == Err::<Rate, TimecodeError>(TimecodeError::DropFrameRate),
            nominal >= 1 && drop_frame && nominal % 30 == 0 && exact
                ==> out == Err::<Rate, TimecodeError>(TimecodeError::DropFrameExactRate),
            nominal >= 1 && drop_frame && nominal % 30 == 0 && !exact && !ntsc_fraction(nominal, fraction)
                ==> out == Err::<Rate, TimecodeError>(TimecodeError::DropFrameRate),
            nominal >= 1 && !drop_frame ==> (out matches Ok(r) && r.nominal_rate() == nominal
                && r.dropped_per_minute() == 0),
            nominal >= 1 && drop_frame && nominal % 30 == 0 && !exact && ntsc_fraction(nominal, fraction) ==> (out matches Ok(r)
                && r.nominal_rate() == nominal && r.dropped_per_minute() == nominal / 15),
    {
        if nominal < 1 {
            return Err(TimecodeError::RateBelowOne);
        }
        let drop_per_min = if drop_frame {
            if nominal % 30 != 0 {
                return Err(TimecodeError::DropFrameRate);
            }
            if exact {
                return Err(TimecodeError::DropFrameExactRate);
            }
            if fraction > 0 || fraction == i64::MIN || (-fraction) as u64 != nominal {
                return Err(TimecodeError::DropFrameRate);
            }
            nominal / 15
        } else {
            0
        };
        Ok(Rate { nominal, drop_per_min })
    }

    /// The nominal whole frames per second.
    pub fn nominal(&self) -> (out: u64)
        ensures
            out == self.nominal_rate(),
            rate_wf(self.nominal_rate(), self.dropped_per_minute()),
    {
        proof { use_type_invariant(self); }
        self.nominal
    }

    /// Whether this rate counts drop-frame.
    pub fn is_drop_frame(&self) -> (out: bool)
        ensures
            out == (self.dropped_per_minute() > 0),
    {
        self.drop_per_min > 0
    }

    /// The label count of frame `n`, saturated at `u64::MAX`.
    fn label_of(&self, n: u64) -> (out: u64)
        ensures
            out == saturate(label_count(self.nominal_rate(), self.dropped_per_minute(), n as nat)),
    {
        proof { use_type_invariant(self); }
        let fps = self.nominal;
        let d = self.drop_per_min;
        if d == 0 {
            return n;
        }
        assert(fps * 600 <= FRACTIONAL_RATE_LIMIT * 600) by (nonlinear_arith)
            requires fps <= FRACTIONAL_RATE_LIMIT;
        let per_ten = fps * 600 - 9 * d;
        let per_min = fps * 60 - d;
        let tens = n / per_ten;
        let rem = n % per_ten;
        let k: u64 = if rem >= d { (rem - d) / per_min } else { 0 };
        assert((d as int) * (tens as int) <= FRACTIONAL_RATE_LIMIT * u64::MAX
            && (d as int) * (k as int) <= FRACTIONAL_RATE_LIMIT * u64::MAX) by (nonlinear_arith)
            requires d <= FRACTIONAL_RATE_LIMIT, tens <= u64::MAX, k <= u64::MAX;
        let a: u128 = (d as u128) * (tens as u128);
        let b: u128 = (d as u128) * (k as u128);
        let extra: u128 = if rem >= d { 9 * a + b } else { 9 * a };
        assert(9 * d * tens == 9 * a) by (nonlinear_arith) requires a == d * tens;
        let adjusted: u128 = n as u128 + extra;
        if adjusted > u64::MAX as u128 {
            u64::MAX
        } else {
            adjusted as u64
        }
    }

    /// Frame number to timecode: `HH:MM:SS:FF` for non-drop, `HH:MM:SS;FF`
    /// for drop-frame. A label count past `u64::MAX` saturates.
    pub fn frames_to_timecode(&self, frame_number: u64) -> (out: String)
        ensures
            out@ == render_fields(
                split_count(
                    saturate(label_count(self.nominal_rate(), self.dropped_per_minute(), frame_number as nat)) as nat,
                    self.nominal_rate(),
                ),
                self.dropped_per_minute() > 0,
            ),
    {
        proof { use_type_invariant(self); }
        let count = self.label_of(frame_number);
        let fps = self.nominal;
        let secs = count / fps;
        proof {
            lemma_div_denominator(secs as int, 60, 60);
        }
        let fields = TimecodeFields {
            hh: secs / 3600,
            mm: (secs / 60) % 60,
            ss: secs % 60,
            ff: count % fps,
        };
        fields.render(self.drop_per_min > 0)
    }

    /// Timecode fields to an absolute frame number.
    pub fn timecode_to_frames(&self, f: &TimecodeFields) -> (out: Result<u64, TimecodeError>)
        ensures
            out == frames_of(self.nominal_rate(), self.dropped_per_minute(), *f),
    {
        proof { use_type_invariant(self); }
        let fps = self.nominal;
        let d = self.drop_per_min;
        if f.ff >= fps {
            return Err(TimecodeError::FrameOutOfRange { frame: f.ff, rate: fps });
        }
        if f.ss >= 60 || f.mm >= 60 {
            return Err(TimecodeError::MinutesSeconds);
        }
        if d > 0 && f.ss == 0 && f.mm % 10 != 0 && f.ff < d {
            return Err(TimecodeError::DroppedLabel { fields: *f, dropped: d });
        }
        proof { lemma_base_bounds(*f, fps as nat); }
        let minutes = match f.hh.checked_mul(60) {
            Some(v) => match v.checked_add(f.mm) {
                Some(w) => w,
                None => { return Err(TimecodeError::TooLarge); },
            },
            None => { return Err(TimecodeError::TooLarge); },
        };
        let base = match f.hh.checked_mul(3600) {
            None => None,
            Some(v) => match v.checked_add(f.mm * 60 + f.ss) {
                None => None,
                Some(w) => match w.checked_mul(fps) {
                    None => None,
                    Some(x) => x.checked_add(f.ff),
                },
            },
        };
        proof { lemma_base_bounds(*f, fps as nat); }
        match base {
            None => Err(TimecodeError::TooLarge),
            Some(b) => {
                proof { lemma_dropped_bound(*f, fps as nat, d as nat); }
                let dropped = d * (minutes - minutes / 10);
                Ok(b - dropped)
            },
        }
    }
}

/// Every partial sum on the way to the base count is bounded by it.
proof fn lemma_base_bounds(f: TimecodeFields, nominal: nat)
    requires
        nominal >= 1,
        f.mm < 60,
    ensures
        f.hh * 60 <= f.hh * 3600,
        f.hh * 3600 <= f.hh * 3600 + f.mm * 60 + f.ss,
        f.hh * 3600 + f.mm * 60 + f.ss <= (f.hh * 3600 + f.mm * 60 + f.ss) * nominal,
        (f.hh * 3600 + f.mm * 60 + f.ss) * nominal <= base_count(f, nominal),
        total_minutes(f) * 60 <= base_count(f, nominal),
{
    assert(f.hh * 3600 + f.mm * 60 + f.ss <= (f.hh * 3600 + f.mm * 60 + f.ss) * nominal) by (nonlinear_arith)
        requires nominal >= 1;
}

/// The labels dropped up to a timecode never exceed its base count.
proof fn lemma_dropped_bound(f: TimecodeFields, nominal: nat, drop: nat)
    requires
        rate_wf(nominal, drop),
        f.mm < 60,
    ensures
        drop * (total_minutes(f) - total_minutes(f) / 10) <= base_count(f, nominal),
        drop * (total_minutes(f) - total_minutes(f) / 10) <= drop * total_minutes(f),
{
    let m = total_minutes(f);
    let k = (f.hh * 3600 + f.mm * 60 + f.ss);
    assert(m * 60 <= k);
    assert(drop * (m - m / 10) <= drop * m) by (nonlinear_arith)
        requires m / 10 >= 0, m - m / 10 <= m;
    assert(drop * m <= k * nominal) by (nonlinear_arith)
        requires drop <= nominal, m * 60 <= k, nominal >= 1;
}


// ---------------------------------------------------------------------------
// Tools
// ---------------------------------------------------------------------------

/// Whether a timecode is read as drop-frame: the explicit choice if one was
/// made, else whether its text holds a `;`.
pub open spec fn infer_drop_spec(timecode: Seq<char>, explicit: Option<bool>) -> bool {
    match explicit {
        Some(b) => b,
        None => timecode.contains(';'),
    }
}

/// The rate a tool builds from a nominal rate, its exactness, its fraction
/// and a drop-frame flag.
pub open spec fn rate_spec(nominal: u64, exact: bool, fraction: i64, drop_frame: bool) -> Result<(nat, nat), TimecodeError> {
    if nominal < 1 {
        Err(TimecodeError::RateBelowOne)
    } else if drop_frame && nominal % 30 != 0 {
        Err(TimecodeError::DropFrameRate)
    } else if drop_frame && exact {
        Err(TimecodeError::DropFrameExactRate)
    } else if drop_frame && !ntsc_fraction(nominal, fraction) {
        Err(TimecodeError::DropFrameRate)
    } else {
        Ok((nominal as nat, if drop_frame { nominal as nat / 15 } else { 0nat }))
    }
}

/// Whether `out` is the outcome of reading `timecode`: equal to it when
/// that succeeds or fails on the rate or conversion, and a parse error of
/// the matching kind when the text does not parse.
pub open spec fn read_outcome(out: Result<u64, TimecodeError>, timecode: Seq<char>, nominal: u64, exact: bool, fraction: i64, drop_frame: bool) -> bool {
    match rate_spec(nominal, exact, fraction, drop_frame) {
        Err(e) => out == Err::<u64, TimecodeError>(e),
        Ok((n, d)) => match parse_fields_spec(timecode) {
            Ok(f) => out == frames_of(n, d, f),
            Err(bad) => if split_fields(timecode).len() != 4 {
                out == Err::<u64, TimecodeError>(TimecodeError::FieldCount)
            } else {
                out matches Err(TimecodeError::InvalidField(t)) && t@ == bad
            },
        },
    }
}

/// Whether `timecode` holds a `;`.
pub fn has_drop_separator(timecode: &str) -> (out: bool)
    ensures
        out == timecode@.contains(';'),
{
    let cs = chars_of(timecode);
    let mut i: usize = 0;
    while i < cs.len()
        invariant
            i <= cs.len(),
            cs@ == timecode@,
            forall|j: int| 0 <= j < i ==> cs@[j] != ';',
        decreases cs.len() - i,
    {
        if cs[i] == ';' {
            return true;
        }
        i = i + 1;
    }
    false
}

/// Drop-frame as the tools infer it: the explicit flag, else a `;` in the
/// timecode.
pub fn infer_drop_frame(timecode: &str, explicit: Option<bool>) -> (out: bool)
    ensures
        out == infer_drop_spec(timecode@, explicit),
{
    match explicit {
        Some(b) => b,
        None => has_drop_separator(timecode),
    }
}

/// `frames_to_timecode`: the timecode of an absolute frame number.
pub fn frames_to_timecode(frames: u64, nominal: u64, exact: bool, fraction: i64, drop_frame: bool)
    -> (out: Result<String, TimecodeError>)
    requires
        !exact ==> nominal <= FRACTIONAL_RATE_LIMIT,
    ensures
        match rate_spec(nominal, exact, fraction, drop_frame) {
            Err(e) => out == Err::<String, TimecodeError>(e),
            Ok((n, d)) => out matches Ok(t) && t@ == render_fields(
                split_count(saturate(label_count(n, d, frames as nat)) as nat, n),
                d > 0,
            ),
        },
{
    let rate = Rate::new(nominal, exact, fraction, drop_frame)?;
    Ok(rate.frames_to_timecode(frames))
}

/// `timecode_to_frames`: the frame number a timecode names. Drop-frame is
/// the explicit flag, else inferred from a `;`; the inferred flag is
/// returned beside the frame number.
pub fn timecode_to_frames(timecode: &str, nominal: u64, exact: bool, fraction: i64, drop_frame: Option<bool>)
    -> (out: (Result<u64, TimecodeError>, bool))
    requires
        !exact ==> nominal <= FRACTIONAL_RATE_LIMIT,
    ensures
        out.1 == infer_drop_spec(timecode@, drop_frame),
        read_outcome(out.0, timecode@, nominal, exact, fraction, out.1),
{
    let df = infer_drop_frame(timecode, drop_frame);
    (read_timecode(timecode, nominal, exact, fraction, df), df)
}

/// Reads `timecode` as a frame number at a rate.
pub fn read_timecode(timecode: &str, nominal: u64, exact: bool, fraction: i64, drop_frame: bool)
    -> (out: Result<u64, TimecodeError>)
    requires
        !exact ==> nominal <= FRACTIONAL_RATE_LIMIT,
    ensures
        read_outcome(out, timecode@, nominal, exact, fraction, drop_frame),
{
    let rate = Rate::new(nominal, exact, fraction, drop_frame)?;
    let fields = TimecodeFields::parse(timecode)?;
    rate.timecode_to_frames(&fields)
}

/// `start + offset`, clamped to the `u64` range.
pub open spec fn offset_spec(start: u64, offset: i64) -> u64 {
    if start + offset < 0 {
        0
    } else if start + offset > u64::MAX {
        u64::MAX
    } else {
        (start + offset) as u64
    }
}

/// A frame number moved by a signed number of frames, clamped at 0 (and at
/// `u64::MAX`).
pub fn offset_frames(start: u64, offset: i64) -> (out: u64)
    ensures
        out == offset_spec(start, offset),
{
    if offset >= 0 {
        start.saturating_add(offset as u64)
    } else {
        let back: u64 = if offset == i64::MIN { 9223372036854775808u64 } else { (-offset) as u64 };
        start.saturating_sub(back)
    }
}

/// What `offset_timecode` returns.
#[derive(Debug)]
pub struct OffsetOutcome {
    /// The moved timecode.
    pub timecode: String,
    /// The moved frame number.
    pub frames: u64,
    /// The frame number of the starting timecode.
    pub start_frames: u64,
}

/// `offset_timecode`: a timecode moved by a signed number of frames,
/// clamped at frame 0.
pub fn offset_timecode(timecode: &str, nominal: u64, exact: bool, fraction: i64, drop_frame: Option<bool>, offset: i64)
    -> (out: Result<OffsetOutcome, TimecodeError>)
    requires
        !exact ==> nominal <= FRACTIONAL_RATE_LIMIT,
    ensures
        ({
            let df = infer_drop_spec(timecode@, drop_frame);
            match out {
                Ok(o) => {
                    &&& read_outcome(Ok(o.start_frames), timecode@, nominal, exact, fraction, df)
                    &&& o.frames == offset_spec(o.start_frames, offset)
                    &&& rate_spec(nominal, exact, fraction, df) matches Ok((n, d))
                    &&& o.timecode@ == render_fields(
                        split_count(saturate(label_count(n, d, o.frames as nat)) as nat, n),
                        d > 0,
                    )
                },
                Err(e) => read_outcome(Err(e), timecode@, nominal, exact, fraction, df),
            }
        }),
{
    let df = infer_drop_frame(timecode, drop_frame);
    let rate = Rate::new(nominal, exact, fraction, df)?;
    let fields = TimecodeFields::parse(timecode)?;
    let start = rate.timecode_to_frames(&fields)?;
    let result = offset_frames(start, offset);
    Ok(OffsetOutcome { timecode: rate.frames_to_timecode(result), frames: result, start_frames: start })
}

/// The sum of a sequence of frame counts.
pub open spec fn sum_frames(s: Seq<u64>) -> nat
    decreases s.len(),
{
    if s.len() == 0 { 0 } else { sum_frames(s.drop_last()) + s.last() as nat }
}

proof fn lemma_sum_frames_prefix(s: Seq<u64>, i: int)
    requires
        0 <= i <= s.len(),
    ensures
        sum_frames(s.take(i)) <= sum_frames(s),
    decreases s.len(),
{
    if i < s.len() {
        assert(s.drop_last().take(i) =~= s.take(i));
        lemma_sum_frames_prefix(s.drop_last(), i);
    } else {
        assert(s.take(i) =~= s);
    }
}

/// The total of clip durations, or `None` when it does not fit in 64 bits.
pub fn total_frames(clip_frames: &[u64]) -> (out: Option<u64>)
    ensures
        sum_frames(clip_frames@) <= u64::MAX ==> out == Some(sum_frames(clip_frames@) as u64),
        sum_frames(clip_frames@) > u64::MAX ==> out is None,
{
    let mut total: u64 = 0;
    let mut i: usize = 0;
    while i < clip_frames.len()
        invariant
            i <= clip_frames.len(),
            total == sum_frames(clip_frames@.take(i as int)),
        decreases clip_frames.len() - i,
    {
        assert(clip_frames@.take(i + 1).drop_last() =~= clip_frames@.take(i as int));
        match total.checked_add(clip_frames[i]) {
            Some(t) => { total = t; },
            None => {
                proof { lemma_sum_frames_prefix(clip_frames@, i + 1); }
                return None;
            },
        }
        i = i + 1;
    }
    assert(clip_frames@.take(i as int) =~= clip_frames@);
    Some(total)
}

/// What `sequence_duration` returns.
#[derive(Debug)]
pub struct SequenceOutcome {
    /// The summed duration in frames.
    pub total_frames: u64,
    /// The summed duration as a timecode.
    pub timecode: String,
}

/// `sequence_duration`: the total of per-clip durations, in frames and as a
/// timecode.
pub fn sequence_duration(clip_frames: &[u64], nominal: u64, exact: bool, fraction: i64, drop_frame: bool)
    -> (out: Result<SequenceOutcome, TimecodeError>)
    requires
        !exact ==> nominal <= FRACTIONAL_RATE_LIMIT,
    ensures
        match rate_spec(nominal, exact, fraction, drop_frame) {
            Err(e) => out == Err::<SequenceOutcome, TimecodeError>(e),
            Ok((n, d)) => if sum_frames(clip_frames@) > u64::MAX {
                out == Err::<SequenceOutcome, TimecodeError>(TimecodeError::TotalOverflow)
            } else {
                out matches Ok(o) && o.total_frames == sum_frames(clip_frames@)
                    && o.timecode@ == render_fields(
                        split_count(saturate(label_count(n, d, o.total_frames as nat)) as nat, n),
                        d > 0,
                    )
            },
        },
{
    let rate = Rate::new(nominal, exact, fraction, drop_frame)?;
    match total_frames(clip_frames) {
        None => Err(TimecodeError::TotalOverflow),
        Some(total) => Ok(SequenceOutcome { total_frames: total, timecode: rate.frames_to_timecode(total) }),
    }
}

/// The first steps of `conform_timecode`: the source frame number and the
/// target rate. Drop-frame of the source is the explicit flag, else
/// inferred from a `;`. (Retiming by real seconds is floating point and
/// happens outside the library.)
pub fn conform_source(
    timecode: &str,
    from_nominal: u64,
    from_exact: bool,
    from_fraction: i64,
    from_drop_frame: Option<bool>,
    to_nominal: u64,
    to_exact: bool,
    to_fraction: i64,
    to_drop_frame: bool,
) -> (out: Result<(u64, Rate), TimecodeError>)
    requires
        !from_exact ==> from_nominal <= FRACTIONAL_RATE_LIMIT,
        !to_exact ==> to_nominal <= FRACTIONAL_RATE_LIMIT,
    ensures
        ({
            let df = infer_drop_spec(timecode@, from_drop_frame);
            match rate_spec(from_nominal, from_exact, from_fraction, df) {
                Err(e) => out == Err::<(u64, Rate), TimecodeError>(e),
                Ok(_) => match rate_spec(to_nominal, to_exact, to_fraction, to_drop_frame) {
                    Err(e) => out == Err::<(u64, Rate), TimecodeError>(e),
                    Ok((n, d)) => match out {
                        Ok((source, r)) => read_outcome(Ok(source), timecode@, from_nominal, from_exact, from_fraction, df)
                            && r.nominal_rate() == n && r.dropped_per_minute() == d,
                        Err(e) => read_outcome(Err(e), timecode@, from_nominal, from_exact, from_fraction, df),
                    },
                },
            }
        }),
{
    let df = infer_drop_frame(timecode, from_drop_frame);
    let from_rate = Rate::new(from_nominal, from_exact, from_fraction, df)?;
    let to_rate = Rate::new(to_nominal, to_exact, to_fraction, to_drop_frame)?;
    let fields = TimecodeFields::parse(timecode)?;
    let source = from_rate.timecode_to_frames(&fields)?;
    Ok((source, to_rate))
}

// ---------------------------------------------------------------------------
// Laws
// ---------------------------------------------------------------------------

/// Splitting a label count into fields and reading the fields back as a
/// count are inverse.
proof fn lemma_split_base(c: nat, nominal: nat)
    requires
        nominal >= 1,
        c <= u64::MAX,
    ensures
        ({
            let f = split_count(c, nominal);
            &&& base_count(f, nominal) == c
            &&& f.ff < nominal && f.ss < 60 && f.mm < 60
            &&& total_minutes(f) == c / nominal / 60
            &&& f.mm % 10 == (c / nominal / 60) % 10
        }),
{
    let secs = c / nominal;
    let mins = secs / 60;
    lemma_div_denominator(secs as int, 60, 60);
    let f = split_count(c, nominal);
    lemma_fundamental_div_mod(c as int, nominal as int);
    lemma_fundamental_div_mod(secs as int, 60);
    lemma_fundamental_div_mod(mins as int, 60);
    assert(f.hh == mins / 60);
    assert(f.mm == mins % 60);
    assert(mins == f.hh * 60 + f.mm);
    assert(secs == mins * 60 + f.ss);
    assert(c == secs * nominal + f.ff);
    assert(base_count(f, nominal) == c) by (nonlinear_arith)
        requires
            mins == f.hh * 60 + f.mm,
            secs == mins * 60 + f.ss,
            c == secs * nominal + f.ff,
            base_count(f, nominal) == (f.hh * 3600 + f.mm * 60 + f.ss) * nominal + f.ff,
    ;
    assert(f.mm % 10 == mins % 10) by (nonlinear_arith)
        requires mins == f.hh * 60 + f.mm, f.mm < 60;
}

/// Reading well-formed fields as a count and splitting it again gives back
/// the same fields.
proof fn lemma_base_split(f: TimecodeFields, nominal: nat)
    requires
        nominal >= 1,
        f.ff < nominal,
        f.ss < 60,
        f.mm < 60,
    ensures
        split_count(base_count(f, nominal), nominal) == f,
        base_count(f, nominal) / nominal / 60 == total_minutes(f),
{
    let c = base_count(f, nominal);
    let m = total_minutes(f);
    let secs = m * 60 + f.ss;
    assert(c == secs * nominal + f.ff) by (nonlinear_arith)
        requires
            m == f.hh * 60 + f.mm,
            secs == m * 60 + f.ss,
            c == (f.hh * 3600 + f.mm * 60 + f.ss) * nominal + f.ff,
    ;
    lemma_fundamental_div_mod_converse(c as int, nominal as int, secs as int, f.ff as int);
    lemma_fundamental_div_mod_converse(secs as int, 60, m as int, f.ss as int);
    lemma_fundamental_div_mod_converse(m as int, 60, f.hh as int, f.mm as int);
    lemma_div_denominator(secs as int, 60, 60);
}

/// A frame number decomposed by ten-minute block `q`, minute `m` within the
/// block and offset `s` within that minute has label count
/// `q * 600 * nominal + m * 60 * nominal + s`.
proof fn lemma_label_count_decomposed(nominal: nat, drop: nat, q: nat, m: nat, s: nat)
    requires
        rate_wf(nominal, drop),
        drop > 0,
        m <= 9,
        s < nominal * 60,
        m > 0 ==> s >= drop,
    ensures
        label_count(nominal, drop, q * frames_per_ten_minutes(nominal, drop) + m * frames_per_minute(nominal, drop) + s)
            == q * 600 * nominal + m * 60 * nominal + s,
{
    let per_ten = frames_per_ten_minutes(nominal, drop);
    let per_min = frames_per_minute(nominal, drop);
    let n = q * per_ten + m * per_min + s;
    assert(drop * 15 == nominal);
    assert(per_ten == 10 * per_min + drop);
    assert(per_min > drop);
    let rem = m * per_min + s;
    assert(rem < per_ten) by (nonlinear_arith)
        requires m <= 9, s < per_min + drop, rem == m * per_min + s, per_ten == 10 * per_min + drop;
    lemma_fundamental_div_mod_converse(n as int, per_ten as int, q as int, rem as int);
    if rem >= drop {
        if m == 0 {
            lemma_fundamental_div_mod_converse((rem - drop) as int, per_min as int, 0, (rem - drop) as int);
        } else {
            lemma_fundamental_div_mod_converse((rem - drop) as int, per_min as int, m as int, (s - drop) as int);
        }
        assert(((rem - drop) as nat) / per_min == m);
    } else {
        assert(m == 0);
    }
    assert(n + 9 * drop * q + drop * m == q * 600 * nominal + m * 60 * nominal + s) by (nonlinear_arith)
        requires
            n == q * per_ten + m * per_min + s,
            per_ten == nominal * 600 - 9 * drop,
            per_min == nominal * 60 - drop,
    ;
}

/// Every frame number has such a decomposition.
proof fn lemma_decompose_frames(nominal: nat, drop: nat, n: nat) -> (qms: (nat, nat, nat))
    requires
        rate_wf(nominal, drop),
        drop > 0,
    ensures
        qms.1 <= 9,
        qms.2 < nominal * 60,
        qms.1 > 0 ==> qms.2 >= drop,
        n == qms.0 * frames_per_ten_minutes(nominal, drop) + qms.1 * frames_per_minute(nominal, drop) + qms.2,
{
    let per_ten = frames_per_ten_minutes(nominal, drop);
    let per_min = frames_per_minute(nominal, drop);
    assert(drop * 15 == nominal);
    assert(per_ten == 10 * per_min + drop);
    let q = n / per_ten;
    let rem = n % per_ten;
    assert(n == q * per_ten + rem) by (nonlinear_arith)
        requires per_ten > 0, q == n / per_ten, rem == n % per_ten;
    if rem < drop {
        (q, 0, rem)
    } else {
        let m = ((rem - drop) as nat) / per_min;
        let r = ((rem - drop) as nat) % per_min;
        let x: int = rem - drop;
        lemma_fundamental_div_mod(x, per_min as int);
        assert(m == x / per_min as int);
        assert(r == x % per_min as int);
        assert(x == m * per_min + r) by (nonlinear_arith)
            requires x == per_min * (x / per_min as int) + x % per_min as int, m == x / per_min as int, r == x % per_min as int;
        assert(m <= 9) by (nonlinear_arith)
            requires (rem - drop) == m * per_min + r, rem < 10 * per_min + drop, r >= 0, per_min > 0;
        (q, m, r + drop)
    }
}

/// Converting a frame number to a timecode label and reading the label back
/// gives the same frame number, at every rate and for every frame number
/// whose label count fits in 64 bits.
pub proof fn law_frames_label_roundtrip(nominal: nat, drop: nat, n: nat)
    requires
        rate_wf(nominal, drop),
        n <= u64::MAX,
        label_count(nominal, drop, n) <= u64::MAX,
    ensures
        frames_of(nominal, drop, split_count(label_count(nominal, drop, n), nominal)) == Ok::<u64, TimecodeError>(n as u64),
{
    let c = label_count(nominal, drop, n);
    lemma_split_base(c, nominal);
    let f = split_count(c, nominal);
    if drop == 0 {
        assert(drop * (total_minutes(f) - total_minutes(f) / 10) == 0);
    } else {
        let (q, m, s) = lemma_decompose_frames(nominal, drop, n);
        lemma_label_count_decomposed(nominal, drop, q, m, s);
        let mins = 10 * q + m;
        assert(c == (mins * 60) * nominal + s) by (nonlinear_arith)
            requires c == q * 600 * nominal + m * 60 * nominal + s, mins == 10 * q + m;
        lemma_fundamental_div_mod(s as int, nominal as int);
        assert(c == (mins * 60 + s / nominal) * nominal + s % nominal) by (nonlinear_arith)
            requires c == (mins * 60) * nominal + s, s == nominal * (s / nominal) + s % nominal;
        lemma_fundamental_div_mod_converse(c as int, nominal as int, (mins * 60 + s / nominal) as int, (s % nominal) as int);
        assert(s / nominal < 60) by (nonlinear_arith) requires s < nominal * 60, nominal > 0;
        lemma_fundamental_div_mod_converse((mins * 60 + s / nominal) as int, 60, mins as int, (s / nominal) as int);
        assert(total_minutes(f) == mins);
        lemma_fundamental_div_mod_converse(mins as int, 10, q as int, m as int);
        assert(f.ss == s / nominal);
        assert(f.ff == s % nominal);
        // A minute that drops labels starts past the dropped ones.
        if f.ss == 0 && f.mm % 10 != 0 {
            assert(m > 0);
            assert(s == f.ff);
        }
        assert(c - drop * (mins - mins / 10) == n) by (nonlinear_arith)
            requires
                c == q * 600 * nominal + m * 60 * nominal + s,
                n == q * frames_per_ten_minutes(nominal, drop) + m * frames_per_minute(nominal, drop) + s,
                mins / 10 == q,
                mins == 10 * q + m,
                frames_per_ten_minutes(nominal, drop) == nominal * 600 - 9 * drop,
                frames_per_minute(nominal, drop) == nominal * 60 - drop,
        ;
    }
}

/// Reading a valid timecode label as a frame number and converting that
/// frame number back gives the same label: the label count of the frame is
/// the label's own count.
pub proof fn law_label_frames_roundtrip(nominal: nat, drop: nat, f: TimecodeFields)
    requires
        rate_wf(nominal, drop),
        frames_of(nominal, drop, f) is Ok,
    ensures
        label_count(nominal, drop, frames_of(nominal, drop, f)->Ok_0 as nat) == base_count(f, nominal),
        split_count(label_count(nominal, drop, frames_of(nominal, drop, f)->Ok_0 as nat), nominal) == f,
{
    let n = frames_of(nominal, drop, f)->Ok_0 as nat;
    lemma_base_split(f, nominal);
    lemma_dropped_bound(f, nominal, drop);
    if drop > 0 {
        let mins = total_minutes(f);
        let q = mins / 10;
        let m = mins % 10;
        let s: nat = (f.ss * nominal + f.ff) as nat;
        assert(mins == 10 * q + m);
        assert(f.mm % 10 == m) by (nonlinear_arith)
            requires mins == f.hh * 60 + f.mm, m == mins % 10;
        assert(s < nominal * 60) by (nonlinear_arith)
            requires f.ss < 60, f.ff < nominal, s == f.ss * nominal + f.ff;
        assert(drop * 15 == nominal);
        if m > 0 && f.ss > 0 {
            assert(s >= nominal) by (nonlinear_arith) requires f.ss >= 1, s == f.ss * nominal + f.ff;
        }
        assert(base_count(f, nominal) == (mins * 60) * nominal + s) by (nonlinear_arith)
            requires
                mins == f.hh * 60 + f.mm,
                s == f.ss * nominal + f.ff,
                base_count(f, nominal) == (f.hh * 3600 + f.mm * 60 + f.ss) * nominal + f.ff,
        ;
        assert(n == q * frames_per_ten_minutes(nominal, drop) + m * frames_per_minute(nominal, drop) + s) by (nonlinear_arith)
            requires
                n == base_count(f, nominal) - drop * (mins - q),
                base_count(f, nominal) == (mins * 60) * nominal + s,
                mins == 10 * q + m,
                frames_per_ten_minutes(nominal, drop) == nominal * 600 - 9 * drop,
                frames_per_minute(nominal, drop) == nominal * 60 - drop,
        ;
        lemma_label_count_decomposed(nominal, drop, q, m, s);
        assert(q * 600 * nominal + m * 60 * nominal + s == base_count(f, nominal)) by (nonlinear_arith)
            requires base_count(f, nominal) == (mins * 60) * nominal + s, mins == 10 * q + m;
    }
}

/// The tools undo each other: the timecode `frames_to_timecode` gives for a
/// frame number, read back by `timecode_to_frames` at the same rate with
/// drop-frame left to inference, names the same frame number, and the
/// inference recovers the drop-frame choice. This holds for every frame
/// number whose label count fits in 64 bits.
pub proof fn law_tools_roundtrip(frames: u64, nominal: u64, exact: bool, fraction: i64, drop_frame: bool)
    requires
        !exact ==> nominal <= FRACTIONAL_RATE_LIMIT,
        rate_spec(nominal, exact, fraction, drop_frame) is Ok,
        label_count(
            rate_spec(nominal, exact, fraction, drop_frame)->Ok_0.0,
            rate_spec(nominal, exact, fraction, drop_frame)->Ok_0.1,
            frames as nat,
        ) <= u64::MAX,
    ensures
        ({
            let (n, d) = rate_spec(nominal, exact, fraction, drop_frame)->Ok_0;
            let t = render_fields(split_count(saturate(label_count(n, d, frames as nat)) as nat, n), d > 0);
            &&& infer_drop_spec(t, None) == drop_frame
            &&& read_outcome(Ok(frames), t, nominal, exact, fraction, drop_frame)
        }),
{
    let (n, d) = rate_spec(nominal, exact, fraction, drop_frame)->Ok_0;
    assert(rate_wf(n, d));
    assert(d > 0 <==> drop_frame);
    let c = label_count(n, d, frames as nat);
    let f = split_count(c, n);
    law_frames_label_roundtrip(n, d, frames as nat);
    crate::timecode::law_render_parse_roundtrip(f, d > 0);
    crate::timecode::law_render_marks_drop_frame(f, d > 0);
}

/// Moving a frame number forward and back by the same amount returns it,
/// as long as neither move is clamped; moving by 0 changes nothing.
pub proof fn law_offset_undone(start: u64, offset: i64)
    requires
        offset != i64::MIN,
        0 <= start + offset <= u64::MAX,
    ensures
        offset_spec(offset_spec(start, offset), -offset as i64) == start,
        offset_spec(start, 0) == start,
{
}

} // verus!
