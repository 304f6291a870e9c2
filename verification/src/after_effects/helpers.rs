//! Pure-compute helpers for motion-graphics work: non-drop timecode, hex
//! colours, expression snippets and effect templates.
use vstd::prelude::*;
use crate::premiere::{rate_spec, read_outcome, read_timecode, Rate, saturate, label_count, split_count};
use crate::fred::upper_hex_char;
use crate::text::{
    chars_of, hex_digit_value, hex_value, is_hex_digit, is_whitespace, law_hex_digit_written_reads_back, push_str, trim,
    trim_end_spec, trim_spec, trim_start_spec,
};
use crate::timecode::{TimecodeError, render_fields};

verus! {

/// Easing curve for keyframe interpolation.
///
/// The cubic and back variants match the common After Effects animation
/// toolkit (easeOutCubic, easeInOutCubic, and the standard 1.70158
/// easeOutBack overshoot).
#[derive(Clone, Copy, Debug, PartialEq, Eq, Structural)]
pub enum Easing {
    /// Constant velocity.
    Linear,
    /// Slow start (quadratic).
    EaseIn,
    /// Slow end (quadratic).
    EaseOut,
    /// Slow start and end (cubic smoothstep), AE's "Easy Ease".
    EaseInOut,
    /// Slow end (cubic).
    EaseOutCubic,
    /// Slow start and end (cubic).
    EaseInOutCubic,
    /// Overshoot-and-settle.
    EaseOutBack,
}

/// A predefined After Effects effect template.
#[derive(Clone, Copy, Debug, PartialEq, Eq, Structural)]
pub enum EffectTemplate {
    GaussianBlur,
    DirectionalBlur,
    ColorBalance,
    BrightnessContrast,
    Curves,
    Glow,
    DropShadow,
    CinematicLook,
    TextPop,
}

/// Arguments of `effect_template`.
#[derive(Clone, Copy, Debug)]
pub struct EffectTemplateParams {
    /// Which template to expand.
    pub template: EffectTemplate,
}

/// Which After Effects expression to generate.
#[derive(Clone, Copy, Debug, PartialEq, Eq, Structural)]
pub enum ExpressionKind {
    /// `wiggle(freq, amp)` random motion.
    Wiggle,
    /// `loopOut("cycle")`: repeat keyframes after the last one.
    LoopOut,
    /// `time * rate`: constant drive.
    TimeDrive,
    /// Bounce settle after the last keyframe.
    Bounce,
}

/// Arguments of `hex_to_rgb`.
#[derive(Clone, Debug)]
pub struct HexToRgbParams {
    /// Hex colour, `#RGB`, `#RRGGBB` or `#RRGGBBAA` (leading `#` optional).
    pub hex: String,
}

// ---------------------------------------------------------------------------
// Timecode (non-drop)
// ---------------------------------------------------------------------------

/// Validates an integer frame rate (`fps.round()`): it must be at least 1.
pub fn validate_rate(nominal: u64) -> (out: Result<u64, TimecodeError>)
    ensures
        nominal >= 1 ==> out == Ok::<u64, TimecodeError>(nominal),
        nominal < 1 ==> out == Err::<u64, TimecodeError>(TimecodeError::RateBelowOne),
{
    if nominal < 1 {
        Err(TimecodeError::RateBelowOne)
    } else {
        Ok(nominal)
    }
}

/// `frames_to_timecode`: an absolute frame number as non-drop
/// `HH:MM:SS:FF` at a whole frame rate.
pub fn frames_to_timecode(frames: u64, nominal: u64) -> (out: Result<String, TimecodeError>)
    ensures
        nominal < 1 ==> out == Err::<String, TimecodeError>(TimecodeError::RateBelowOne),
        nominal >= 1 ==> (out matches Ok(t) && t@ == render_fields(split_count(frames as nat, nominal as nat), false)),
{
    let rate = validate_rate(nominal)?;
    let r = Rate::new(rate, true, 0, false)?;
    Ok(r.frames_to_timecode(frames))
}

/// `timecode_to_frames`: a non-drop `HH:MM:SS:FF` timecode (`:` or `;`
/// separators) as an absolute frame number at a whole frame rate.
pub fn timecode_to_frames(timecode: &str, nominal: u64) -> (out: Result<u64, TimecodeError>)
    ensures
        read_outcome(out, timecode@, nominal, true, 0, false),
{
    let rate = validate_rate(nominal)?;
    read_timecode(timecode, rate, true, 0, false)
}

/// The two timecode tools undo each other at every whole frame rate: the
/// timecode of a frame number reads back as that frame number.
pub proof fn law_timecode_roundtrip(frames: u64, nominal: u64)
    requires
        nominal >= 1,
    ensures
        read_outcome(
            Ok(frames),
            render_fields(split_count(frames as nat, nominal as nat), false),
            nominal,
            true,
            0,
            false,
        ),
{
    crate::premiere::law_tools_roundtrip(frames, nominal, true, 0, false);
}

// ---------------------------------------------------------------------------
// Hex colours
// ---------------------------------------------------------------------------

/// Why a hex colour was refused.
#[derive(Clone, Copy, Debug, PartialEq, Eq, Structural)]
pub enum HexError {
    /// A character is not a hex digit.
    NotHexDigits,
    /// The digits are not 3, 6 or 8 long.
    BadLength,
}

/// The digits of a hex colour: trimmed of whitespace, one leading `#`
/// removed.
pub open spec fn hex_body(s: Seq<char>) -> Seq<char> {
    let t = trim_spec(s);
    if t.len() > 0 && t[0] == '#' { t.drop_first() } else { t }
}

/// The byte two hex digits at `i` name.
pub open spec fn hex_byte(s: Seq<char>, i: int) -> u8 {
    (hex_value(s[i]) * 16 + hex_value(s[i + 1])) as u8
}

/// The byte one shorthand hex digit at `i` names: the digit doubled.
pub open spec fn hex_nibble_byte(s: Seq<char>, i: int) -> u8 {
    (hex_value(s[i]) * 17) as u8
}

/// What parsing a hex colour gives.
pub open spec fn parse_hex_spec(s: Seq<char>) -> Result<(u8, u8, u8, u8), HexError> {
    let b = hex_body(s);
    if !(forall|i: int| 0 <= i < b.len() ==> is_hex_digit(#[trigger] b[i])) {
        Err(HexError::NotHexDigits)
    } else if b.len() == 3 {
        Ok((hex_nibble_byte(b, 0), hex_nibble_byte(b, 1), hex_nibble_byte(b, 2), 255u8))
    } else if b.len() == 6 {
        Ok((hex_byte(b, 0), hex_byte(b, 2), hex_byte(b, 4), 255u8))
    } else if b.len() == 8 {
        Ok((hex_byte(b, 0), hex_byte(b, 2), hex_byte(b, 4), hex_byte(b, 6)))
    } else {
        Err(HexError::BadLength)
    }
}

/// A byte written as two uppercase hex digits.
pub open spec fn hex_pair(b: u8) -> Seq<char> {
    seq![upper_hex_char((b / 16) as nat), upper_hex_char((b % 16) as nat)]
}

/// The two digits written for a byte read back as that byte.
proof fn lemma_hex_pair(b: u8)
    ensures
        hex_pair(b).len() == 2,
        is_hex_digit(hex_pair(b)[0]),
        is_hex_digit(hex_pair(b)[1]),
        hex_byte(hex_pair(b), 0) == b,
{
    law_hex_digit_written_reads_back((b / 16) as nat);
    law_hex_digit_written_reads_back((b % 16) as nat);
    assert((b / 16) * 16 + b % 16 == b);
}

/// Parsing a colour written in hex gives back the colour: `#RRGGBB` reads
/// as those three bytes with alpha 255, and `#RRGGBBAA` as all four.
pub proof fn law_hex_colour_round_trip(r: u8, g: u8, b: u8, a: u8)
    ensures
        parse_hex_spec(seq!['#'] + hex_pair(r) + hex_pair(g) + hex_pair(b)) == Ok::<(u8, u8, u8, u8), HexError>((r, g, b, 255u8)),
        parse_hex_spec(seq!['#'] + hex_pair(r) + hex_pair(g) + hex_pair(b) + hex_pair(a)) == Ok::<(u8, u8, u8, u8), HexError>((r, g, b, a)),
{
    lemma_hex_pair(r);
    lemma_hex_pair(g);
    lemma_hex_pair(b);
    lemma_hex_pair(a);
    let body3 = hex_pair(r) + hex_pair(g) + hex_pair(b);
    let body4 = body3 + hex_pair(a);
    lemma_hex_body_of_hashed(body3);
    lemma_hex_body_of_hashed(body4);
    assert(body3.subrange(2, 4) =~= hex_pair(g));
    assert(body3.subrange(4, 6) =~= hex_pair(b));
    assert(forall|i: int| 0 <= i < body3.len() ==> is_hex_digit(#[trigger] body3[i]));
    assert(forall|i: int| 0 <= i < body4.len() ==> is_hex_digit(#[trigger] body4[i]));
    assert(hex_byte(body3, 0) == hex_byte(hex_pair(r), 0));
    assert(hex_byte(body3, 2) == hex_byte(hex_pair(g), 0));
    assert(hex_byte(body3, 4) == hex_byte(hex_pair(b), 0));
    assert(hex_byte(body4, 0) == hex_byte(hex_pair(r), 0));
    assert(hex_byte(body4, 2) == hex_byte(hex_pair(g), 0));
    assert(hex_byte(body4, 4) == hex_byte(hex_pair(b), 0));
    assert(hex_byte(body4, 6) == hex_byte(hex_pair(a), 0));
}

/// Parsing a shorthand colour gives back each digit doubled: `#RGB` written
/// for the digit values `r`, `g`, `b` reads as the bytes `0xRR`, `0xGG`,
/// `0xBB`, with alpha 255.
pub proof fn law_hex_shorthand_round_trip(r: nat, g: nat, b: nat)
    requires
        r < 16,
        g < 16,
        b < 16,
    ensures
        parse_hex_spec(seq!['#', upper_hex_char(r), upper_hex_char(g), upper_hex_char(b)])
            == Ok::<(u8, u8, u8, u8), HexError>(((r * 17) as u8, (g * 17) as u8, (b * 17) as u8, 255u8)),
{
    law_hex_digit_written_reads_back(r);
    law_hex_digit_written_reads_back(g);
    law_hex_digit_written_reads_back(b);
    let body = seq![upper_hex_char(r), upper_hex_char(g), upper_hex_char(b)];
    lemma_hex_body_of_hashed(body);
    assert(seq!['#'] + body =~= seq!['#', upper_hex_char(r), upper_hex_char(g), upper_hex_char(b)]);
    assert(forall|i: int| 0 <= i < body.len() ==> is_hex_digit(#[trigger] body[i]));
}

/// Digits behind a `#`, ending in a hex digit, are the hex body as written.
proof fn lemma_hex_body_of_hashed(digits: Seq<char>)
    requires
        digits.len() > 0,
        is_hex_digit(digits.last()),
    ensures
        hex_body(seq!['#'] + digits) == digits,
{
    let s = seq!['#'] + digits;
    assert(!is_whitespace(s[0]));
    assert(trim_start_spec(s) == s);
    assert(s.last() == digits.last());
    assert(!is_whitespace(s.last()));
    assert(trim_end_spec(s) == s);
    assert(s.drop_first() =~= digits);
}

fn byte_at(b: &Vec<char>, i: usize) -> (out: u8)
    requires
        i + 1 < b.len(),
        is_hex_digit(b@[i as int]),
        is_hex_digit(b@[i + 1]),
    ensures
        out == hex_byte(b@, i as int),
{
    let hi = hex_digit_value(b[i]);
    let lo = hex_digit_value(b[i + 1]);
    hi * 16 + lo
}

fn nibble_at(b: &Vec<char>, i: usize) -> (out: u8)
    requires
        i < b.len(),
        is_hex_digit(b@[i as int]),
    ensures
        out == hex_nibble_byte(b@, i as int),
{
    let v = hex_digit_value(b[i]);
    v * 16 + v
}

/// Parses `#RGB`, `#RRGGBB` or `#RRGGBBAA` (leading `#` optional,
/// surrounding whitespace ignored) into RGBA bytes. Alpha is 255 when
/// absent; each shorthand digit is doubled.
pub fn parse_hex(hex: &str) -> (out: Result<(u8, u8, u8, u8), HexError>)
    ensures
        out == parse_hex_spec(hex@),
{
    let t = trim(hex);
    let b: Vec<char> = if t.len() > 0 && t[0] == '#' {
        let mut rest: Vec<char> = Vec::new();
        let mut i: usize = 1;
        while i < t.len()
            invariant
                1 <= i <= t.len(),
                rest@ == t@.subrange(1, i as int),
            decreases t.len() - i,
        {
            rest.push(t[i]);
            i = i + 1;
            assert(rest@ =~= t@.subrange(1, i as int));
        }
        assert(rest@ =~= t@.drop_first());
        rest
    } else {
        t
    };
    assert(b@ == hex_body(hex@));
    let mut i: usize = 0;
    while i < b.len()
        invariant
            i <= b.len(),
            b@ == hex_body(hex@),
            forall|j: int| 0 <= j < i ==> is_hex_digit(#[trigger] b@[j]),
        decreases b.len() - i,
    {
        let c = b[i];
        if !(('0' <= c && c <= '9') || ('a' <= c && c <= 'f') || ('A' <= c && c <= 'F')) {
            assert(!is_hex_digit(b@[i as int]));
            return Err(HexError::NotHexDigits);
        }
        i = i + 1;
    }
    if b.len() == 3 {
        Ok((nibble_at(&b, 0), nibble_at(&b, 1), nibble_at(&b, 2), 255))
    } else if b.len() == 6 {
        Ok((byte_at(&b, 0), byte_at(&b, 2), byte_at(&b, 4), 255))
    } else if b.len() == 8 {
        Ok((byte_at(&b, 0), byte_at(&b, 2), byte_at(&b, 4), byte_at(&b, 6)))
    } else {
        Err(HexError::BadLength)
    }
}


// ---------------------------------------------------------------------------
// Expressions
// ---------------------------------------------------------------------------

/// The bounce-settle expression, verbatim.
pub const BOUNCE_EXPRESSION: &'static str = "// Bounce settle after last keyframe\n\
     amp = 0.1; freq = 2.0; decay = 5.0;\n\
     n = numKeys > 0 ? nearestKey(time).index : 0;\n\
     if (n > 0 && key(n).time > time) n--;\n\
     if (n == 0) { value; } else {\n\
     t = time - key(n).time;\n\
     v = velocityAtTime(key(n).time - 0.001);\n\
     value + v * amp * Math.sin(freq * t * 2 * Math.PI) / Math.exp(decay * t);\n\
     }";

/// The loop-out expression, verbatim.
pub const LOOP_OUT_EXPRESSION: &'static str = "loopOut(\"cycle\");";

/// The expression text generated for `kind`, given the rendered rate (or
/// frequency) and amplitude.
pub open spec fn expression_spec(kind: ExpressionKind, rate: Seq<char>, amplitude: Seq<char>) -> Seq<char> {
    match kind {
        ExpressionKind::Wiggle => "wiggle("@ + rate + ", "@ + amplitude + ");"@,
        ExpressionKind::LoopOut => LOOP_OUT_EXPRESSION@,
        ExpressionKind::TimeDrive => "time * "@ + rate + ";"@,
        ExpressionKind::Bounce => BOUNCE_EXPRESSION@,
    }
}

/// Generates a ready-to-paste After Effects expression. `rate` is the
/// wiggle frequency (Hz) or the time-drive rate (units per second) and
/// `amplitude` the wiggle amplitude, both already rendered as numbers;
/// each is ignored by the kinds that take no such value.
pub fn expression_code(kind: ExpressionKind, rate: &str, amplitude: &str) -> (out: String)
    ensures
        out@ == expression_spec(kind, rate@, amplitude@),
{
    let mut out = String::new();
    match kind {
        ExpressionKind::Wiggle => {
            push_str(&mut out, "wiggle(");
            push_str(&mut out, rate);
            push_str(&mut out, ", ");
            push_str(&mut out, amplitude);
            push_str(&mut out, ");");
        },
        ExpressionKind::LoopOut => {
            push_str(&mut out, LOOP_OUT_EXPRESSION);
        },
        ExpressionKind::TimeDrive => {
            push_str(&mut out, "time * ");
            push_str(&mut out, rate);
            push_str(&mut out, ";");
        },
        ExpressionKind::Bounce => {
            push_str(&mut out, BOUNCE_EXPRESSION);
        },
    }
    assert(out@ =~= expression_spec(kind, rate@, amplitude@));
    out
}

// ---------------------------------------------------------------------------
// Effect templates
// ---------------------------------------------------------------------------

/// The effects a template expands to, as a JSON array of
/// `{"match_name", "settings"}` objects. Match names and defaults are those of
/// the common After Effects animation toolkit.
pub open spec fn effect_template_spec(t: EffectTemplate) -> Seq<char> {
    match t {
        EffectTemplate::GaussianBlur =>
            r#"[{"match_name":"ADBE Gaussian Blur 2","settings":{"Blurriness":20}}]"#@,
        EffectTemplate::DirectionalBlur =>
            r#"[{"match_name":"ADBE Directional Blur","settings":{"Direction":0,"Blur Length":10}}]"#@,
        EffectTemplate::ColorBalance =>
            r#"[{"match_name":"ADBE Color Balance (HLS)","settings":{"Hue":0,"Lightness":0,"Saturation":0}}]"#@,
        EffectTemplate::BrightnessContrast =>
            r#"[{"match_name":"ADBE Brightness & Contrast 2","settings":{"Brightness":0,"Contrast":0,"Use Legacy":false}}]"#@,
        EffectTemplate::Curves =>
            r#"[{"match_name":"ADBE CurvesCustom","settings":{}}]"#@,
        EffectTemplate::Glow =>
            r#"[{"match_name":"ADBE Glow","settings":{"Glow Threshold":50,"Glow Radius":15,"Glow Intensity":1}}]"#@,
        EffectTemplate::DropShadow =>
            r#"[{"match_name":"ADBE Drop Shadow","settings":{"Shadow Color":[0,0,0,1],"Opacity":50,"Direction":135,"Distance":10,"Softness":10}}]"#@,
        EffectTemplate::CinematicLook =>
            r#"[{"match_name":"ADBE CurvesCustom","settings":{}},{"match_name":"ADBE Vibrance","settings":{"Vibrance":15,"Saturation":-5}}]"#@,
        EffectTemplate::TextPop =>
            r#"[{"match_name":"ADBE Drop Shadow","settings":{"Shadow Color":[0,0,0,1],"Opacity":75,"Distance":5,"Softness":10}},{"match_name":"ADBE Glow","settings":{"Glow Threshold":50,"Glow Radius":10,"Glow Intensity":1.5}}]"#@,
    }
}

/// The ADBE match names of the effects a template applies, in the order it
/// applies them.
pub open spec fn template_match_names(t: EffectTemplate) -> Seq<Seq<char>> {
    match t {
        EffectTemplate::GaussianBlur => seq!["ADBE Gaussian Blur 2"@],
        EffectTemplate::DirectionalBlur => seq!["ADBE Directional Blur"@],
        EffectTemplate::ColorBalance => seq!["ADBE Color Balance (HLS)"@],
        EffectTemplate::BrightnessContrast => seq!["ADBE Brightness & Contrast 2"@],
        EffectTemplate::Curves => seq!["ADBE CurvesCustom"@],
        EffectTemplate::Glow => seq!["ADBE Glow"@],
        EffectTemplate::DropShadow => seq!["ADBE Drop Shadow"@],
        EffectTemplate::CinematicLook => seq!["ADBE CurvesCustom"@, "ADBE Vibrance"@],
        EffectTemplate::TextPop => seq!["ADBE Drop Shadow"@, "ADBE Glow"@],
    }
}

/// One effect as a JSON object: its match name and its settings object.
pub open spec fn effect_json(name: Seq<char>, settings: Seq<char>) -> Seq<char> {
    "{\"match_name\":\""@ + name + "\",\"settings\":"@ + settings + "}"@
}

/// Effects as the items of a JSON array, separated by commas.
pub open spec fn effect_items(names: Seq<Seq<char>>, settings: Seq<Seq<char>>) -> Seq<char>
    decreases names.len(),
{
    if names.len() == 0 {
        Seq::empty()
    } else if names.len() == 1 {
        effect_json(names[0], settings[0])
    } else {
        effect_json(names[0], settings[0]) + ","@ + effect_items(names.drop_first(), settings.drop_first())
    }
}

/// Whether `s` reads as a JSON object: it opens with `{` and closes with `}`.
pub open spec fn is_braced(s: Seq<char>) -> bool {
    s.len() >= 2 && s[0] == '{' && s.last() == '}'
}

/// Unfolds `effect_items` for the one- and two-effect templates.
proof fn lemma_effect_items_witness(names: Seq<Seq<char>>, settings: Seq<Seq<char>>)
    requires
        1 <= names.len() <= 2,
        settings.len() == names.len(),
    ensures
        names.len() == 1 ==> effect_items(names, settings) == effect_json(names[0], settings[0]),
        names.len() == 2 ==> effect_items(names, settings) == effect_json(names[0], settings[0]) + ","@
            + effect_json(names[1], settings[1]),
{
    if names.len() == 2 {
        assert(effect_items(names.drop_first(), settings.drop_first()) == effect_json(names[1], settings[1]));
    }
}

/// Every template expands to a JSON array of exactly its effects, in order:
/// one object per effect, each carrying the ADBE match name of that effect
/// and a settings object.
pub proof fn law_template_effects(t: EffectTemplate)
    ensures
        exists|settings: Seq<Seq<char>>|
            settings.len() == template_match_names(t).len()
            && (forall|k: int| 0 <= k < settings.len() ==> #[trigger] is_braced(settings[k]))
            && effect_template_spec(t) == "["@ + #[trigger] effect_items(template_match_names(t), settings) + "]"@,
{
    reveal_strlit("{\"match_name\":\"");
    reveal_strlit("\",\"settings\":");
    reveal_strlit("}");
    reveal_strlit(",");
    reveal_strlit("[");
    reveal_strlit("]");
    match t {
        EffectTemplate::GaussianBlur => {
            reveal_strlit(r#"[{"match_name":"ADBE Gaussian Blur 2","settings":{"Blurriness":20}}]"#);
            reveal_strlit("ADBE Gaussian Blur 2");
            reveal_strlit(r#"{"Blurriness":20}"#);
            let w: Seq<Seq<char>> = seq![r#"{"Blurriness":20}"#@];
            lemma_effect_items_witness(template_match_names(t), w);
            assert(effect_template_spec(t) =~= "["@ + effect_items(template_match_names(t), w) + "]"@);
        },
        EffectTemplate::DirectionalBlur => {
            reveal_strlit(r#"[{"match_name":"ADBE Directional Blur","settings":{"Direction":0,"Blur Length":10}}]"#);
            reveal_strlit("ADBE Directional Blur");
            reveal_strlit(r#"{"Direction":0,"Blur Length":10}"#);
            let w: Seq<Seq<char>> = seq![r#"{"Direction":0,"Blur Length":10}"#@];
            lemma_effect_items_witness(template_match_names(t), w);
            assert(effect_template_spec(t) =~= "["@ + effect_items(template_match_names(t), w) + "]"@);
        },
        EffectTemplate::ColorBalance => {
            reveal_strlit(r#"[{"match_name":"ADBE Color Balance (HLS)","settings":{"Hue":0,"Lightness":0,"Saturation":0}}]"#);
            reveal_strlit("ADBE Color Balance (HLS)");
            reveal_strlit(r#"{"Hue":0,"Lightness":0,"Saturation":0}"#);
            let w: Seq<Seq<char>> = seq![r#"{"Hue":0,"Lightness":0,"Saturation":0}"#@];
            lemma_effect_items_witness(template_match_names(t), w);
            assert(effect_template_spec(t) =~= "["@ + effect_items(template_match_names(t), w) + "]"@);
        },
        EffectTemplate::BrightnessContrast => {
            reveal_strlit(r#"[{"match_name":"ADBE Brightness & Contrast 2","settings":{"Brightness":0,"Contrast":0,"Use Legacy":false}}]"#);
            reveal_strlit("ADBE Brightness & Contrast 2");
            reveal_strlit(r#"{"Brightness":0,"Contrast":0,"Use Legacy":false}"#);
            let w: Seq<Seq<char>> = seq![r#"{"Brightness":0,"Contrast":0,"Use Legacy":false}"#@];
            lemma_effect_items_witness(template_match_names(t), w);
            assert(effect_template_spec(t) =~= "["@ + effect_items(template_match_names(t), w) + "]"@);
        },
        EffectTemplate::Curves => {
            reveal_strlit(r#"[{"match_name":"ADBE CurvesCustom","settings":{}}]"#);
            reveal_strlit("ADBE CurvesCustom");
            reveal_strlit(r#"{}"#);
            let w: Seq<Seq<char>> = seq![r#"{}"#@];
            lemma_effect_items_witness(template_match_names(t), w);
            assert(effect_template_spec(t) =~= "["@ + effect_items(template_match_names(t), w) + "]"@);
        },
        EffectTemplate::Glow => {
            reveal_strlit(r#"[{"match_name":"ADBE Glow","settings":{"Glow Threshold":50,"Glow Radius":15,"Glow Intensity":1}}]"#);
            reveal_strlit("ADBE Glow");
            reveal_strlit(r#"{"Glow Threshold":50,"Glow Radius":15,"Glow Intensity":1}"#);
            let w: Seq<Seq<char>> = seq![r#"{"Glow Threshold":50,"Glow Radius":15,"Glow Intensity":1}"#@];
            lemma_effect_items_witness(template_match_names(t), w);
            assert(effect_template_spec(t) =~= "["@ + effect_items(template_match_names(t), w) + "]"@);
        },
        EffectTemplate::DropShadow => {
            reveal_strlit(r#"[{"match_name":"ADBE Drop Shadow","settings":{"Shadow Color":[0,0,0,1],"Opacity":50,"Direction":135,"Distance":10,"Softness":10}}]"#);
            reveal_strlit("ADBE Drop Shadow");
            reveal_strlit(r#"{"Shadow Color":[0,0,0,1],"Opacity":50,"Direction":135,"Distance":10,"Softness":10}"#);
            let w: Seq<Seq<char>> = seq![r#"{"Shadow Color":[0,0,0,1],"Opacity":50,"Direction":135,"Distance":10,"Softness":10}"#@];
            lemma_effect_items_witness(template_match_names(t), w);
            assert(effect_template_spec(t) =~= "["@ + effect_items(template_match_names(t), w) + "]"@);
        },
        EffectTemplate::CinematicLook => {
            reveal_strlit(r#"[{"match_name":"ADBE CurvesCustom","settings":{}},{"match_name":"ADBE Vibrance","settings":{"Vibrance":15,"Saturation":-5}}]"#);
            reveal_strlit("ADBE CurvesCustom");
            reveal_strlit("ADBE Vibrance");
            reveal_strlit(r#"{}"#);
            reveal_strlit(r#"{"Vibrance":15,"Saturation":-5}"#);
            let w: Seq<Seq<char>> = seq![r#"{}"#@, r#"{"Vibrance":15,"Saturation":-5}"#@];
            lemma_effect_items_witness(template_match_names(t), w);
            assert(effect_template_spec(t) =~= "["@ + effect_items(template_match_names(t), w) + "]"@);
        },
        EffectTemplate::TextPop => {
            reveal_strlit(r#"[{"match_name":"ADBE Drop Shadow","settings":{"Shadow Color":[0,0,0,1],"Opacity":75,"Distance":5,"Softness":10}},{"match_name":"ADBE Glow","settings":{"Glow Threshold":50,"Glow Radius":10,"Glow Intensity":1.5}}]"#);
            reveal_strlit("ADBE Drop Shadow");
            reveal_strlit("ADBE Glow");
            reveal_strlit(r#"{"Shadow Color":[0,0,0,1],"Opacity":75,"Distance":5,"Softness":10}"#);
            reveal_strlit(r#"{"Glow Threshold":50,"Glow Radius":10,"Glow Intensity":1.5}"#);
            let w: Seq<Seq<char>> = seq![r#"{"Shadow Color":[0,0,0,1],"Opacity":75,"Distance":5,"Softness":10}"#@, r#"{"Glow Threshold":50,"Glow Radius":10,"Glow Intensity":1.5}"#@];
            lemma_effect_items_witness(template_match_names(t), w);
            assert(effect_template_spec(t) =~= "["@ + effect_items(template_match_names(t), w) + "]"@);
        },
    }
}

/// Expands a predefined effect template to its ADBE match name(s) and
/// default settings, as JSON text.
pub fn effect_template_json(t: EffectTemplate) -> (out: &'static str)
    ensures
        out@ == effect_template_spec(t),
{
    match t {
        EffectTemplate::GaussianBlur =>
            r#"[{"match_name":"ADBE Gaussian Blur 2","settings":{"Blurriness":20}}]"#,
        EffectTemplate::DirectionalBlur =>
            r#"[{"match_name":"ADBE Directional Blur","settings":{"Direction":0,"Blur Length":10}}]"#,
        EffectTemplate::ColorBalance =>
            r#"[{"match_name":"ADBE Color Balance (HLS)","settings":{"Hue":0,"Lightness":0,"Saturation":0}}]"#,
        EffectTemplate::BrightnessContrast =>
            r#"[{"match_name":"ADBE Brightness & Contrast 2","settings":{"Brightness":0,"Contrast":0,"Use Legacy":false}}]"#,
        EffectTemplate::Curves =>
            r#"[{"match_name":"ADBE CurvesCustom","settings":{}}]"#,
        EffectTemplate::Glow =>
            r#"[{"match_name":"ADBE Glow","settings":{"Glow Threshold":50,"Glow Radius":15,"Glow Intensity":1}}]"#,
        EffectTemplate::DropShadow =>
            r#"[{"match_name":"ADBE Drop Shadow","settings":{"Shadow Color":[0,0,0,1],"Opacity":50,"Direction":135,"Distance":10,"Softness":10}}]"#,
        EffectTemplate::CinematicLook =>
            r#"[{"match_name":"ADBE CurvesCustom","settings":{}},{"match_name":"ADBE Vibrance","settings":{"Vibrance":15,"Saturation":-5}}]"#,
        EffectTemplate::TextPop =>
            r#"[{"match_name":"ADBE Drop Shadow","settings":{"Shadow Color":[0,0,0,1],"Opacity":75,"Distance":5,"Softness":10}},{"match_name":"ADBE Glow","settings":{"Glow Threshold":50,"Glow Radius":10,"Glow Intensity":1.5}}]"#,
    }
}

/// The kebab-case name a template goes by on the wire.
pub open spec fn template_name_spec(t: EffectTemplate) -> Seq<char> {
    match t {
        EffectTemplate::GaussianBlur => "gaussian-blur"@,
        EffectTemplate::DirectionalBlur => "directional-blur"@,
        EffectTemplate::ColorBalance => "color-balance"@,
        EffectTemplate::BrightnessContrast => "brightness-contrast"@,
        EffectTemplate::Curves => "curves"@,
        EffectTemplate::Glow => "glow"@,
        EffectTemplate::DropShadow => "drop-shadow"@,
        EffectTemplate::CinematicLook => "cinematic-look"@,
        EffectTemplate::TextPop => "text-pop"@,
    }
}

impl EffectTemplate {
    /// The kebab-case name the panel's `applyEffectTemplate` expects.
    pub fn name(&self) -> (out: &'static str)
        ensures
            out@ == template_name_spec(*self),
    {
        match self {
            EffectTemplate::GaussianBlur => "gaussian-blur",
            EffectTemplate::DirectionalBlur => "directional-blur",
            EffectTemplate::ColorBalance => "color-balance",
            EffectTemplate::BrightnessContrast => "brightness-contrast",
            EffectTemplate::Curves => "curves",
            EffectTemplate::Glow => "glow",
            EffectTemplate::DropShadow => "drop-shadow",
            EffectTemplate::CinematicLook => "cinematic-look",
            EffectTemplate::TextPop => "text-pop",
        }
    }
}

} // verus!
