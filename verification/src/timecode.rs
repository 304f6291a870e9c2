//! `HH:MM:SS:FF` timecode fields: splitting, parsing and rendering.
//!
//! Both the After Effects helpers and the Premiere tools read timecodes with
//! the same rules: the text is split at every `:` or `;`, there must be
//! exactly four fields, and each field is read as `str::parse::<u64>` reads
//! it. Rendering prints each field with at least two digits.
use vstd::prelude::*;
use crate::text::{
    all_digits, chars_of, digit_char, is_digit, lemma_decimal_digits, lemma_digit_char, lemma_pad2_parses,
    pad2, parse_u64, parse_u64_spec, push_char, push_pad2, string_of, debug_quoted, debug_text, decimal,
    push_decimal, push_str,
};

verus! {

/// The four numeric fields of a timecode.
#[derive(Clone, Copy, Debug, PartialEq, Eq, Structural)]
pub struct TimecodeFields {
    pub hh: u64,
    pub mm: u64,
    pub ss: u64,
    pub ff: u64,
}

/// Why a timecode or frame rate was refused.
#[derive(Clone, Debug, PartialEq, Eq)]
pub enum TimecodeError {
    /// The frame rate rounds to zero frames per second.
    RateBelowOne,
    /// Drop-frame was asked for a rate that is not a multiple of 30.
    DropFrameRate,
    /// Drop-frame was asked for an exact (non-NTSC) rate.
    DropFrameExactRate,
    /// The text does not split into exactly four fields.
    FieldCount,
    /// A field is not an unsigned integer; holds that field's text.
    InvalidField(String),
    /// The frame field is not below the nominal rate.
    FrameOutOfRange { frame: u64, rate: u64 },
    /// Minutes or seconds are 60 or more.
    MinutesSeconds,
    /// A drop-frame label names a frame number that drop-frame skips.
    DroppedLabel { fields: TimecodeFields, dropped: u64 },
    /// The frame count does not fit in 64 bits.
    TooLarge,
    /// A sum of clip durations does not fit in 64 bits.
    TotalOverflow,
}

/// The separators a timecode is split at.
pub open spec fn is_separator(c: char) -> bool {
    c == ':' || c == ';'
}

/// The fields of `s` split at every separator, as `str::split([':', ';'])`
/// yields them (empty fields included).
pub open spec fn split_fields(s: Seq<char>) -> Seq<Seq<char>>
    decreases s.len(),
{
    if s.len() == 0 {
        seq![Seq::<char>::empty()]
    } else {
        let rest = split_fields(s.drop_last());
        if is_separator(s.last()) {
            rest.push(Seq::<char>::empty())
        } else {
            rest.update(rest.len() - 1, rest.last().push(s.last()))
        }
    }
}

pub proof fn lemma_split_fields_nonempty(s: Seq<char>)
    ensures
        split_fields(s).len() >= 1,
    decreases s.len(),
{
    if s.len() > 0 {
        lemma_split_fields_nonempty(s.drop_last());
    }
}

/// What parsing `s` as a timecode gives.
pub open spec fn parse_fields_spec(s: Seq<char>) -> Result<TimecodeFields, Seq<char>>
{
    let parts = split_fields(s);
    if parts.len() != 4 {
        Err(Seq::<char>::empty())
    } else if parse_u64_spec(parts[0]).is_none() {
        Err(parts[0])
    } else if parse_u64_spec(parts[1]).is_none() {
        Err(parts[1])
    } else if parse_u64_spec(parts[2]).is_none() {
        Err(parts[2])
    } else if parse_u64_spec(parts[3]).is_none() {
        Err(parts[3])
    } else {
        Ok(TimecodeFields {
            hh: parse_u64_spec(parts[0]).unwrap(),
            mm: parse_u64_spec(parts[1]).unwrap(),
            ss: parse_u64_spec(parts[2]).unwrap(),
            ff: parse_u64_spec(parts[3]).unwrap(),
        })
    }
}

/// `f` rendered as `HH:MM:SS:FF`, or `HH:MM:SS;FF` when `drop` is set.
pub open spec fn render_fields(f: TimecodeFields, drop: bool) -> Seq<char> {
    pad2(f.hh as nat) + seq![':'] + pad2(f.mm as nat) + seq![':'] + pad2(f.ss as nat) + seq![
        if drop { ';' } else { ':' },
    ] + pad2(f.ff as nat)
}

/// Whether `parts` holds exactly the character sequences `fields`.
pub open spec fn holds_fields(parts: Seq<Vec<char>>, fields: Seq<Seq<char>>) -> bool {
    &&& parts.len() == fields.len()
    &&& forall|k: int| 0 <= k < parts.len() ==> (#[trigger] parts[k])@ == fields[k]
}

/// Splits `s` at every `:` and `;`.
pub fn split_at_separators(s: &[char]) -> (parts: Vec<Vec<char>>)
    ensures
        holds_fields(parts@, split_fields(s@)),
{
    let mut parts: Vec<Vec<char>> = Vec::new();
    let mut cur: Vec<char> = Vec::new();
    let mut i: usize = 0;
    while i < s.len()
        invariant
            i <= s.len(),
            holds_fields(parts@.push(cur), split_fields(s@.take(i as int))),
        decreases s.len() - i,
    {
        let c = s[i];
        let ghost prev = split_fields(s@.take(i as int));
        proof {
            assert(s@.take(i + 1).drop_last() =~= s@.take(i as int));
            assert(s@.take(i + 1).last() == c);
            lemma_split_fields_nonempty(s@.take(i as int));
        }
        if c == ':' || c == ';' {
            let done = cur;
            parts.push(done);
            cur = Vec::new();
            assert(split_fields(s@.take(i + 1)) == prev.push(Seq::<char>::empty()));
            assert forall|k: int| 0 <= k < parts@.push(cur).len() implies (#[trigger] parts@.push(cur)[k])@
                == split_fields(s@.take(i + 1))[k] by {
                if k < parts@.len() {
                    assert(parts@.push(cur)[k] == parts@[k]);
                }
            }
        } else {
            let ghost before = parts@.push(cur);
            assert(before[before.len() - 1] == cur);
            cur.push(c);
            assert(split_fields(s@.take(i + 1)) == prev.update(prev.len() - 1, prev.last().push(c)));
            assert forall|k: int| 0 <= k < parts@.push(cur).len() implies (#[trigger] parts@.push(cur)[k])@
                == split_fields(s@.take(i + 1))[k] by {
                if k < parts@.len() {
                    assert(parts@.push(cur)[k] == parts@[k]);
                    assert(before[k] == parts@[k]);
                }
            }
        }
        i = i + 1;
    }
    parts.push(cur);
    assert(s@.take(i as int) =~= s@);
    parts
}

impl TimecodeFields {
    /// Parses `HH:MM:SS:FF`, accepting `:` or `;` as any separator.
    ///
    /// Refuses a text that does not split into four fields, and names the
    /// first field that is not an unsigned integer.
    pub fn parse(tc: &str) -> (out: Result<TimecodeFields, TimecodeError>)
        ensures
            match parse_fields_spec(tc@) {
                Ok(f) => out == Ok::<TimecodeFields, TimecodeError>(f),
                Err(bad) => if split_fields(tc@).len() != 4 {
                    out == Err::<TimecodeFields, TimecodeError>(TimecodeError::FieldCount)
                } else {
                    out matches Err(TimecodeError::InvalidField(t)) && t@ == bad
                },
            },
    {
        let cs = chars_of(tc);
        let parts = split_at_separators(cs.as_slice());
        if parts.len() != 4 {
            return Err(TimecodeError::FieldCount);
        }
        assert(parts@[0]@ == split_fields(tc@)[0] && parts@[1]@ == split_fields(tc@)[1]);
        assert(parts@[2]@ == split_fields(tc@)[2] && parts@[3]@ == split_fields(tc@)[3]);
        let hh = match parse_u64(parts[0].as_slice()) {
            Some(v) => v,
            None => { return Err(TimecodeError::InvalidField(string_of(parts[0].as_slice()))); },
        };
        let mm = match parse_u64(parts[1].as_slice()) {
            Some(v) => v,
            None => { return Err(TimecodeError::InvalidField(string_of(parts[1].as_slice()))); },
        };
        let ss = match parse_u64(parts[2].as_slice()) {
            Some(v) => v,
            None => { return Err(TimecodeError::InvalidField(string_of(parts[2].as_slice()))); },
        };
        let ff = match parse_u64(parts[3].as_slice()) {
            Some(v) => v,
            None => { return Err(TimecodeError::InvalidField(string_of(parts[3].as_slice()))); },
        };
        Ok(TimecodeFields { hh, mm, ss, ff })
    }

    /// Renders the fields as `HH:MM:SS:FF`, or `HH:MM:SS;FF` when `drop` is
    /// set, each field with at least two digits.
    pub fn render(&self, drop: bool) -> (out: String)
        ensures
            out@ == render_fields(*self, drop),
    {
        let mut out = String::new();
        push_pad2(&mut out, self.hh);
        push_char(&mut out, ':');
        push_pad2(&mut out, self.mm);
        push_char(&mut out, ':');
        push_pad2(&mut out, self.ss);
        push_char(&mut out, if drop { ';' } else { ':' });
        push_pad2(&mut out, self.ff);
        assert(out@ =~= render_fields(*self, drop));
        out
    }
}


/// The text a timecode error is reported with.
pub open spec fn timecode_error_text(e: TimecodeError) -> Seq<char> {
    match e {
        TimecodeError::RateBelowOne => "fps must round to at least 1 frame per second"@,
        TimecodeError::DropFrameRate => "drop-frame is only valid for 29.97 and 59.94 fps"@,
        TimecodeError::DropFrameExactRate =>
            "drop-frame requires a fractional NTSC rate (29.97/59.94), not an exact rate"@,
        TimecodeError::FieldCount => "timecode must have four fields: HH:MM:SS:FF"@,
        TimecodeError::InvalidField(t) => "invalid timecode field "@ + debug_text(t@),
        TimecodeError::FrameOutOfRange { frame, rate } =>
            "frame field "@ + decimal(frame as nat) + " is out of range for "@ + decimal(rate as nat) + " fps"@,
        TimecodeError::MinutesSeconds => "minutes and seconds must be < 60"@,
        TimecodeError::DroppedLabel { fields, dropped } => render_fields(fields, true)
            + " is not a valid drop-frame timecode (frames 0.."@ + decimal(dropped as nat)
            + " are dropped at this minute)"@,
        TimecodeError::TooLarge => "timecode is too large to convert"@,
        TimecodeError::TotalOverflow => "total frame count overflowed"@,
    }
}

/// The message for a field that is not a number, given the field as
/// `{:?}` quotes it.
pub fn invalid_field_message(quoted: &str) -> (out: String)
    ensures
        out@ == "invalid timecode field "@ + quoted@,
{
    let mut out = String::new();
    push_str(&mut out, "invalid timecode field ");
    push_str(&mut out, quoted);
    out
}

impl TimecodeError {
    /// The text this error is reported with.
    pub fn message(&self) -> (out: String)
        ensures
            out@ == timecode_error_text(*self),
    {
        let mut out = String::new();
        match self {
            TimecodeError::RateBelowOne => push_str(&mut out, "fps must round to at least 1 frame per second"),
            TimecodeError::DropFrameRate => push_str(&mut out, "drop-frame is only valid for 29.97 and 59.94 fps"),
            TimecodeError::DropFrameExactRate => push_str(
                &mut out,
                "drop-frame requires a fractional NTSC rate (29.97/59.94), not an exact rate",
            ),
            TimecodeError::FieldCount => push_str(&mut out, "timecode must have four fields: HH:MM:SS:FF"),
            TimecodeError::InvalidField(t) => {
                let q = debug_quoted(t.as_str());
                out = invalid_field_message(q.as_str());
            },
            TimecodeError::FrameOutOfRange { frame, rate } => {
                push_str(&mut out, "frame field ");
                push_decimal(&mut out, *frame);
                push_str(&mut out, " is out of range for ");
                push_decimal(&mut out, *rate);
                push_str(&mut out, " fps");
            },
            TimecodeError::MinutesSeconds => push_str(&mut out, "minutes and seconds must be < 60"),
            TimecodeError::DroppedLabel { fields, dropped } => {
                let label = fields.render(true);
                push_str(&mut out, label.as_str());
                push_str(&mut out, " is not a valid drop-frame timecode (frames 0..");
                push_decimal(&mut out, *dropped);
                push_str(&mut out, " are dropped at this minute)");
            },
            TimecodeError::TooLarge => push_str(&mut out, "timecode is too large to convert"),
            TimecodeError::TotalOverflow => push_str(&mut out, "total frame count overflowed"),
        }
        assert(out@ =~= timecode_error_text(*self));
        out
    }
}

// ---------------------------------------------------------------------------
// Laws
// ---------------------------------------------------------------------------

/// Whether `t` holds no separator.
pub open spec fn no_separator(t: Seq<char>) -> bool {
    forall|i: int| 0 <= i < t.len() ==> !is_separator(#[trigger] t[i])
}

proof fn lemma_split_append_plain(s: Seq<char>, t: Seq<char>)
    requires
        no_separator(t),
    ensures
        split_fields(s + t) == split_fields(s).update(
            split_fields(s).len() - 1,
            split_fields(s).last() + t,
        ),
    decreases t.len(),
{
    lemma_split_fields_nonempty(s);
    if t.len() == 0 {
        assert(s + t =~= s);
        assert(split_fields(s).last() + t =~= split_fields(s).last());
        assert(split_fields(s).update(split_fields(s).len() - 1, split_fields(s).last()) =~= split_fields(s));
    } else {
        let t2 = t.drop_last();
        assert(no_separator(t2)) by {
            assert forall|i: int| 0 <= i < t2.len() implies !is_separator(#[trigger] t2[i]) by {
                assert(t2[i] == t[i]);
            }
        }
        lemma_split_append_plain(s, t2);
        assert((s + t).drop_last() =~= s + t2);
        assert((s + t).last() == t.last());
        assert(!is_separator(t[t.len() - 1]));
        let prev = split_fields(s + t2);
        assert(prev.last() == split_fields(s).last() + t2);
        assert(prev.last().push(t.last()) =~= split_fields(s).last() + t);
        assert(split_fields(s + t) =~= split_fields(s).update(
            split_fields(s).len() - 1,
            split_fields(s).last() + t,
        ));
    }
}

proof fn lemma_split_append_separator(s: Seq<char>, c: char)
    requires
        is_separator(c),
    ensures
        split_fields(s + seq![c]) == split_fields(s).push(Seq::<char>::empty()),
{
    assert((s + seq![c]).drop_last() =~= s);
}

proof fn lemma_pad2_plain(n: nat)
    ensures
        no_separator(pad2(n)),
        all_digits(pad2(n)),
{
    lemma_decimal_digits(n);
    if n < 10 {
        lemma_digit_char(n);
        assert forall|i: int| 0 <= i < pad2(n).len() implies is_digit(#[trigger] pad2(n)[i]) by {
            if i == 1 {
                assert(pad2(n)[1] == digit_char(n));
            }
        }
    }
    assert forall|i: int| 0 <= i < pad2(n).len() implies !is_separator(#[trigger] pad2(n)[i]) by {
        assert(is_digit(pad2(n)[i]));
    }
}

/// A rendered timecode splits into exactly its four rendered fields.
proof fn lemma_render_splits(f: TimecodeFields, drop: bool)
    ensures
        split_fields(render_fields(f, drop)) == seq![
            pad2(f.hh as nat),
            pad2(f.mm as nat),
            pad2(f.ss as nat),
            pad2(f.ff as nat),
        ],
{
    let a = pad2(f.hh as nat);
    let b = pad2(f.mm as nat);
    let c = pad2(f.ss as nat);
    let d = pad2(f.ff as nat);
    let last_sep = if drop { ';' } else { ':' };
    lemma_pad2_plain(f.hh as nat);
    lemma_pad2_plain(f.mm as nat);
    lemma_pad2_plain(f.ss as nat);
    lemma_pad2_plain(f.ff as nat);
    let e = Seq::<char>::empty();
    lemma_split_append_plain(e, a);
    assert(e + a =~= a);
    assert(split_fields(e) =~= seq![e]);
    assert(split_fields(a) =~= seq![a]);
    let s1 = a + seq![':'];
    lemma_split_append_separator(a, ':');
    let s2 = s1 + b;
    lemma_split_append_plain(s1, b);
    assert(split_fields(s2) =~= seq![a, b]);
    let s3 = s2 + seq![':'];
    lemma_split_append_separator(s2, ':');
    let s4 = s3 + c;
    lemma_split_append_plain(s3, c);
    assert(split_fields(s4) =~= seq![a, b, c]);
    let s5 = s4 + seq![last_sep];
    lemma_split_append_separator(s4, last_sep);
    let s6 = s5 + d;
    lemma_split_append_plain(s5, d);
    assert(split_fields(s6) =~= seq![a, b, c, d]);
    assert(s6 =~= render_fields(f, drop));
}

/// Rendering timecode fields and parsing the text gives back the same
/// fields, with either separator style.
pub proof fn law_render_parse_roundtrip(f: TimecodeFields, drop: bool)
    ensures
        parse_fields_spec(render_fields(f, drop)) == Ok::<TimecodeFields, Seq<char>>(f),
{
    lemma_render_splits(f, drop);
    lemma_pad2_parses(f.hh as nat);
    lemma_pad2_parses(f.mm as nat);
    lemma_pad2_parses(f.ss as nat);
    lemma_pad2_parses(f.ff as nat);
}

/// A rendered timecode holds a `;` exactly when it is a drop-frame label, so
/// inferring drop-frame from a `;` recovers how it was rendered.
pub proof fn law_render_marks_drop_frame(f: TimecodeFields, drop: bool)
    ensures
        render_fields(f, drop).contains(';') <==> drop,
{
    let a = pad2(f.hh as nat);
    let b = pad2(f.mm as nat);
    let c = pad2(f.ss as nat);
    let d = pad2(f.ff as nat);
    lemma_pad2_plain(f.hh as nat);
    lemma_pad2_plain(f.mm as nat);
    lemma_pad2_plain(f.ss as nat);
    lemma_pad2_plain(f.ff as nat);
    let r = render_fields(f, drop);
    let sep_at = a.len() + 1 + b.len() + 1 + c.len();
    assert(r[sep_at as int] == if drop { ';' } else { ':' });
    if !drop {
        assert forall|i: int| 0 <= i < r.len() implies r[i] != ';' by {
            if i < a.len() {
                assert(r[i] == a[i]);
            } else if i == a.len() {
            } else if i < a.len() + 1 + b.len() {
                assert(r[i] == b[i - a.len() - 1]);
            } else if i == a.len() + 1 + b.len() {
            } else if i < sep_at {
                assert(r[i] == c[i - a.len() - 1 - b.len() - 1]);
            } else if i == sep_at {
            } else {
                assert(r[i] == d[i - sep_at - 1]);
            }
        }
    }
}

} // verus!
