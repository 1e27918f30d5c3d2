//! Rendering of the frame stream for the plain commands (`logs`, `events`, `monitor`):
//! sequence and error accounting, the mismatch banner, and the layout of lines, which the
//! terminal interface shares. Output is text (with or without colour) or one JSON object
//! per line.

use crate::clock::{is_clock_ms, now};
use crate::frame::{Body, EventMsg, Frame, Hello, Level, Log, MsgType};
use crate::text::{
    bytes_hex, cat2, cat3, cat4, cat5, cat6, cat7, chars_of, debug_of, debug_text, dec, dec_u64,
    hex, hex_bytes, hex_text, join, join_of, lemma_hex_digits, pad_left, padded_left, push_char,
    push_deep, three_digits, three_digits_of,
};
use crate::wire::Wire;
use vstd::prelude::*;
use vstd::string::*;

verus! {

/// Which stream to render.
#[derive(Debug, Clone, Copy, PartialEq, Eq, Structural)]
pub enum Stream {
    Logs,
    Events,
}

/// When to colour. `Auto` colours only where standard output is a terminal and `NO_COLOR`
/// is not set, so that files and pipes stay clean.
#[derive(Debug, Clone, Copy, PartialEq, Eq, Structural)]
pub enum ColorMode {
    Auto,
    Always,
    Never,
}

/// How the streaming commands render frames.
#[derive(Debug, Clone, Copy, PartialEq, Eq, Structural)]
pub enum OutputMode {
    Text { colors: bool },
    Json,
}

impl ColorMode {
    /// Whether this mode colours. `terminal`: standard output is a terminal and
    /// `NO_COLOR` is not set.
    pub fn enabled(self, terminal: bool) -> (r: bool)
        ensures
            r == match self {
                ColorMode::Always => true,
                ColorMode::Never => false,
                ColorMode::Auto => terminal,
            },
    {
        match self {
            ColorMode::Always => true,
            ColorMode::Never => false,
            ColorMode::Auto => terminal,
        }
    }
}

/// The choice of colour in effect: the old flag `--no-colors` forces it off; otherwise the
/// mode decides.
pub fn resolve_color(color: ColorMode, no_colors: bool, terminal: bool) -> (r: bool)
    ensures
        r == (!no_colors && (color == ColorMode::Always || (color == ColorMode::Auto && terminal))),
{
    if no_colors {
        false
    } else {
        color.enabled(terminal)
    }
}

/// How a streaming command renders: JSON wins over colour.
pub fn output_mode(color: ColorMode, no_colors: bool, json: bool, terminal: bool) -> (r: OutputMode)
    ensures
        r == if json {
            OutputMode::Json
        } else {
            OutputMode::Text {
                colors: !no_colors && (color == ColorMode::Always || (color == ColorMode::Auto
                    && terminal)),
            }
        },
{
    if json {
        OutputMode::Json
    } else {
        OutputMode::Text { colors: resolve_color(color, no_colors, terminal) }
    }
}

// ---- the layout of lines -----------------------------------------------------------

/// The uptime in front of a log line, `[sssss.mmm]`, out of the device's microseconds.
pub open spec fn uptime_text(uptime_us: u64) -> Seq<char> {
    "["@ + pad_left(dec((uptime_us / 1_000_000) as nat), 5) + "."@ + three_digits(
        ((uptime_us % 1_000_000) / 1_000) as int,
    ) + "]"@
}

pub fn uptime_prefix(uptime_us: u64) -> (r: String)
    ensures
        r@ == uptime_text(uptime_us),
{
    let secs = padded_left(dec_u64(uptime_us / 1_000_000), 5);
    let ms = three_digits_of(((uptime_us % 1_000_000) / 1_000) as u32);
    cat5("[", secs.as_str(), ".", ms.as_str(), "]")
}

/// The label of a level, padded so that columns line up.
pub open spec fn label_text(level: Level) -> Seq<char> {
    match level {
        Level::Error => "ERROR"@,
        Level::Warn => "WARN "@,
        Level::Info => "INFO "@,
        Level::Debug => "DEBUG"@,
        Level::Trace => "TRACE"@,
    }
}

pub fn level_label(level: Level) -> (r: &'static str)
    ensures
        r@ == label_text(level),
{
    match level {
        Level::Error => "ERROR",
        Level::Warn => "WARN ",
        Level::Info => "INFO ",
        Level::Debug => "DEBUG",
        Level::Trace => "TRACE",
    }
}

/// The name of a level.
pub open spec fn level_text(level: Level) -> Seq<char> {
    match level {
        Level::Error => "ERROR"@,
        Level::Warn => "WARN"@,
        Level::Info => "INFO"@,
        Level::Debug => "DEBUG"@,
        Level::Trace => "TRACE"@,
    }
}

fn level_name(level: Level) -> (r: &'static str)
    ensures
        r@ == level_text(level),
{
    match level {
        Level::Error => "ERROR",
        Level::Warn => "WARN",
        Level::Info => "INFO",
        Level::Debug => "DEBUG",
        Level::Trace => "TRACE",
    }
}

/// The colour code of a level.
pub open spec fn ansi_code(level: Level) -> u8 {
    match level {
        Level::Error => 31,
        Level::Warn => 33,
        Level::Info => 32,
        Level::Debug => 36,
        Level::Trace => 90,
    }
}

pub fn level_ansi(level: Level) -> (r: u8)
    ensures
        r == ansi_code(level),
{
    match level {
        Level::Error => 31,
        Level::Warn => 33,
        Level::Info => 32,
        Level::Debug => 36,
        Level::Trace => 90,
    }
}

/// A log line without the time of day, with its label given: `[uptime] LABEL module:
/// message`.
pub open spec fn log_text(l: Log, label: Seq<char>) -> Seq<char> {
    uptime_text(l.uptime_us) + " "@ + label + " "@ + l.module@ + ": "@ + l.message@
}

fn log_with(l: &Log, label: &str) -> (r: String)
    ensures
        r@ == log_text(*l, label@),
{
    cat7(
        uptime_prefix(l.uptime_us).as_str(),
        " ",
        label,
        " ",
        l.module.as_str(),
        ": ",
        l.message.as_str(),
    )
}

/// The body of a log line, without time of day or colour: `[uptime] LEVEL module: message`.
pub fn log_line(l: &Log) -> (r: String)
    ensures
        r@ == log_text(*l, label_text(l.level)),
{
    log_with(l, level_label(l.level))
}

/// The fields of an event, each as `key=value`.
pub open spec fn field_texts(fields: Seq<(String, String)>) -> Seq<Seq<char>> {
    Seq::new(fields.len(), |i: int| fields[i].0@ + "="@ + fields[i].1@)
}

/// The fields of an event, `key=value` with a space between two.
pub fn event_fields(e: &EventMsg) -> (r: String)
    ensures
        r@ == join(field_texts(e.fields@), " "@),
{
    let mut parts: Vec<String> = Vec::new();
    let mut i: usize = 0;
    while i < e.fields.len()
        invariant
            i <= e.fields@.len(),
            parts@.len() == i,
            forall|j: int| 0 <= j < i ==> (#[trigger] parts@[j])@ == field_texts(e.fields@)[j],
        decreases e.fields@.len() - i,
    {
        parts.push(cat3(e.fields[i].0.as_str(), "=", e.fields[i].1.as_str()));
        i = i + 1;
    }
    assert(parts.deep_view() =~= field_texts(e.fields@));
    join_of(&parts, " ")
}

/// `s` in a colour, if colours are on.
pub open spec fn painted(s: Seq<char>, code: u8, colors: bool) -> Seq<char> {
    if colors {
        "\x1b["@ + dec(code as nat) + "m"@ + s + "\x1b[0m"@
    } else {
        s
    }
}

pub fn paint(s: &str, code: u8, colors: bool) -> (r: String)
    ensures
        r@ == painted(s@, code, colors),
{
    if colors {
        cat5("\x1b[", dec_u64(code as u64).as_str(), "m", s, "\x1b[0m")
    } else {
        s.to_owned()
    }
}

// ---- JSON --------------------------------------------------------------------------

/// One character of a JSON string.
pub open spec fn escaped(c: char) -> Seq<char> {
    if c == '"' {
        "\\\""@
    } else if c == '\\' {
        "\\\\"@
    } else if c == '\n' {
        "\\n"@
    } else if c == '\r' {
        "\\r"@
    } else if c == '\t' {
        "\\t"@
    } else if (c as u32) < 0x20 {
        "\\u"@ + hex(c as nat, 4)
    } else {
        seq![c]
    }
}

/// The characters of a JSON string.
pub open spec fn escaped_all(s: Seq<char>) -> Seq<char>
    decreases s.len(),
{
    if s.len() == 0 {
        Seq::empty()
    } else {
        escaped_all(s.drop_last()) + escaped(s.last())
    }
}

/// A text as a JSON string.
pub open spec fn json_text(s: Seq<char>) -> Seq<char> {
    "\""@ + escaped_all(s) + "\""@
}

fn escape(c: char) -> (r: String)
    ensures
        r@ == escaped(c),
{
    if c == '"' {
        "\\\"".to_owned()
    } else if c == '\\' {
        "\\\\".to_owned()
    } else if c == '\n' {
        "\\n".to_owned()
    } else if c == '\r' {
        "\\r".to_owned()
    } else if c == '\t' {
        "\\t".to_owned()
    } else if (c as u32) < 0x20 {
        cat2("\\u", hex_text(c as u32, 4).as_str())
    } else {
        let mut s = String::new();
        push_char(&mut s, c);
        assert(s@ =~= seq![c]);
        s
    }
}

/// A text as a JSON string.
pub fn json_str(s: &str) -> (r: String)
    ensures
        r@ == json_text(s@),
{
    let v = chars_of(s);
    let mut body = String::new();
    let mut i: usize = 0;
    assert(body@ =~= escaped_all(v@.take(0)));
    while i < v.len()
        invariant
            i <= v@.len(),
            body@ == escaped_all(v@.take(i as int)),
        decreases v@.len() - i,
    {
        body.append(escape(v[i]).as_str());
        assert(v@.take(i + 1).drop_last() =~= v@.take(i as int));
        i = i + 1;
    }
    assert(v@.take(i as int) =~= s@);
    cat3("\"", body.as_str(), "\"")
}

/// The fields of an event as the members of a JSON object.
pub open spec fn json_fields(fields: Seq<(String, String)>) -> Seq<Seq<char>> {
    Seq::new(fields.len(), |i: int| json_text(fields[i].0@) + ":"@ + json_text(fields[i].1@))
}

fn event_members(e: &EventMsg) -> (r: String)
    ensures
        r@ == "{"@ + join(json_fields(e.fields@), ","@) + "}"@,
{
    let mut parts: Vec<String> = Vec::new();
    let mut i: usize = 0;
    while i < e.fields.len()
        invariant
            i <= e.fields@.len(),
            parts@.len() == i,
            forall|j: int| 0 <= j < i ==> (#[trigger] parts@[j])@ == json_fields(e.fields@)[j],
        decreases e.fields@.len() - i,
    {
        parts.push(
            cat3(
                json_str(e.fields[i].0.as_str()).as_str(),
                ":",
                json_str(e.fields[i].1.as_str()).as_str(),
            ),
        );
        i = i + 1;
    }
    assert(parts.deep_view() =~= json_fields(e.fields@));
    cat3("{", join_of(&parts, ",").as_str(), "}")
}

// ---- the stream --------------------------------------------------------------------

/// Something to write.
#[derive(Debug, PartialEq)]
pub enum Emit {
    /// A line on standard output.
    Line(String),
    /// Text on standard output, as it is.
    Text(String),
    /// A line on standard error.
    Note(String),
}

#[verifier::ext_equal]
pub enum EmitV {
    Line(Seq<char>),
    Text(Seq<char>),
    Note(Seq<char>),
}

impl DeepView for Emit {
    type V = EmitV;

    open spec fn deep_view(&self) -> EmitV {
        match self {
            Emit::Line(s) => EmitV::Line(s@),
            Emit::Text(s) => EmitV::Text(s@),
            Emit::Note(s) => EmitV::Note(s@),
        }
    }
}

/// What is remembered along a stream.
#[derive(Debug, Clone, Copy, PartialEq, Eq, Structural)]
pub struct RenderState {
    pub last_seq: Option<u16>,
    /// Frames that the codec refused. A burst of these on a live link is the classic
    /// symptom of a version mismatch.
    pub decode_failures: u64,
    /// The mismatch banner was shown already.
    pub warned_mismatch: bool,
}

impl RenderState {
    /// The start of a stream.
    pub fn new() -> (r: RenderState)
        ensures
            r == (RenderState { last_seq: None, decode_failures: 0, warned_mismatch: false }),
    {
        RenderState { last_seq: None, decode_failures: 0, warned_mismatch: false }
    }
}

/// One more, up to the largest value.
pub open spec fn one_more(n: u64) -> u64 {
    if n == u64::MAX {
        n
    } else {
        (n + 1) as u64
    }
}

/// The number behind `seq`; numbers wrap around.
pub open spec fn follower(seq: u16) -> u16 {
    crate::mgmt::next_index(seq)
}

/// The loud banner for a device of another protocol version.
pub open spec fn banner(wire: Wire, device: u8) -> Seq<EmitV> {
    seq![
        EmitV::Note("[tower] ============================================================"@),
        EmitV::Note(
            "[tower] PROTOCOL VERSION MISMATCH: device speaks v"@ + dec(device as nat)
                + ", this `tower` was built for v"@ + dec(wire.protocol_version as nat) + "."@,
        ),
        EmitV::Note(
            "[tower] postcard is NOT self-describing — frames will silently mis-decode. Rebuild"@,
        ),
        EmitV::Note(
            "[tower] `tower` and the firmware against the SAME tower-protocol tag (the lockstep rule)."@,
        ),
        EmitV::Note("[tower] ============================================================"@),
    ]
}

/// The loud banner for a device of another protocol version.
pub fn warn_protocol_mismatch(wire: &Wire, device: u8) -> (r: Vec<Emit>)
    ensures
        r.deep_view() == banner(*wire, device),
{
    let mut v: Vec<Emit> = Vec::new();
    v.push(
        Emit::Note(
            "[tower] ============================================================".to_owned(),
        ),
    );
    v.push(
        Emit::Note(
            cat5(
                "[tower] PROTOCOL VERSION MISMATCH: device speaks v",
                dec_u64(device as u64).as_str(),
                ", this `tower` was built for v",
                dec_u64(wire.protocol_version as u64).as_str(),
                ".",
            ),
        ),
    );
    v.push(
        Emit::Note(
            "[tower] postcard is NOT self-describing — frames will silently mis-decode. Rebuild".to_owned(),
        ),
    );
    v.push(
        Emit::Note(
            "[tower] `tower` and the firmware against the SAME tower-protocol tag (the lockstep rule).".to_owned(),
        ),
    );
    v.push(
        Emit::Note(
            "[tower] ============================================================".to_owned(),
        ),
    );
    assert(v.deep_view() =~= banner(*wire, device));
    v
}

/// What is written for a frame that the codec refused, the `count`-th one.
pub open spec fn refused_text(error: Seq<char>, count: u64, mode: OutputMode) -> EmitV {
    match mode {
        OutputMode::Json => EmitV::Line(
            "{\"type\":\"decode_error\",\"error\":"@ + json_text(error) + ",\"count\":"@ + dec(
                count as nat,
            ) + "}"@,
        ),
        OutputMode::Text { colors: _ } => EmitV::Note(
            "[tower] dropped a corrupt frame: "@ + error + " ("@ + dec(count as nat)
                + " undecodable frame(s) — version mismatch?)"@,
        ),
    }
}

pub open spec fn gap_text(expected: u16, got: u16, mode: OutputMode) -> EmitV {
    match mode {
        OutputMode::Json => EmitV::Line(
            "{\"type\":\"seq_gap\",\"expected\":"@ + dec(expected as nat) + ",\"got\":"@ + dec(
                got as nat,
            ) + "}"@,
        ),
        OutputMode::Text { colors: _ } => EmitV::Note(
            "[tower] seq gap: expected "@ + dec(expected as nat) + ", got "@ + dec(got as nat),
        ),
    }
}

/// A log line; `now` is the time of day.
pub open spec fn log_emit(l: Log, mode: OutputMode, now: Seq<char>) -> EmitV {
    match mode {
        OutputMode::Text { colors } => EmitV::Line(
            now + " "@ + log_text(l, painted(label_text(l.level), ansi_code(l.level), colors)),
        ),
        OutputMode::Json => EmitV::Line(
            "{\"type\":\"log\",\"uptime_us\":"@ + dec(l.uptime_us as nat) + ",\"level\":"@
                + json_text(level_text(l.level)) + ",\"module\":"@ + json_text(l.module@)
                + ",\"message\":"@ + json_text(l.message@) + "}"@,
        ),
    }
}

pub open spec fn print_emit(text: Seq<char>, mode: OutputMode) -> EmitV {
    match mode {
        OutputMode::Text { colors: _ } => EmitV::Text(text),
        OutputMode::Json => EmitV::Line(
            "{\"type\":\"print\",\"text\":"@ + json_text(text) + "}"@,
        ),
    }
}

pub open spec fn dropped_emit(count: u32, mode: OutputMode) -> EmitV {
    match mode {
        OutputMode::Text { colors } => EmitV::Note(
            painted("⚠"@, 33, colors) + " "@ + dec(count as nat)
                + " log frame(s) dropped (device queue full)"@,
        ),
        OutputMode::Json => EmitV::Line(
            "{\"type\":\"dropped\",\"count\":"@ + dec(count as nat) + "}"@,
        ),
    }
}

/// An event line; `now` is the time of day.
pub open spec fn event_emit(e: EventMsg, mode: OutputMode, now: Seq<char>) -> EmitV {
    match mode {
        OutputMode::Text { colors } => EmitV::Line(
            now + " "@ + painted("EVENT"@, 35, colors) + " "@ + e.name@ + "  "@ + join(
                field_texts(e.fields@),
                " "@,
            ),
        ),
        OutputMode::Json => EmitV::Line(
            "{\"type\":\"event\",\"name\":"@ + json_text(e.name@) + ",\"fields\":"@ + ("{"@ + join(
                json_fields(e.fields@),
                ","@,
            ) + "}"@) + "}"@,
        ),
    }
}

/// What is written for the payload of a frame, once its number was accounted for.
pub open spec fn body_emits(
    wire: Wire,
    body: Body,
    mode: OutputMode,
    view: Stream,
    warned: bool,
    now: Seq<char>,
) -> Seq<EmitV> {
    match body {
        Body::Hello(h) => {
            let hello = seq![
                EmitV::Note(
                    "[tower] hello: firmware "@ + debug_text(h.firmware_version@) + ", protocol v"@
                        + dec(h.protocol_version as nat),
                ),
            ];
            if h.protocol_version != wire.protocol_version && !warned {
                hello + banner(wire, h.protocol_version)
            } else {
                hello
            }
        },
        Body::Log(l) => if view == Stream::Logs {
            seq![log_emit(l, mode, now)]
        } else {
            Seq::empty()
        },
        Body::Print { text } => if view == Stream::Logs {
            seq![print_emit(text@, mode)]
        } else {
            Seq::empty()
        },
        Body::Dropped { count } => if view == Stream::Logs {
            seq![dropped_emit(count, mode)]
        } else {
            Seq::empty()
        },
        Body::Event(e) => if view == Stream::Events {
            seq![event_emit(e, mode, now)]
        } else {
            Seq::empty()
        },
        _ => Seq::empty(),
    }
}

/// The number that the next frame is held against: a `Hello` starts a new count.
pub open spec fn baseline(last: Option<u16>, kind: MsgType) -> Option<u16> {
    if kind == MsgType::Hello {
        None
    } else {
        last
    }
}

/// What one frame makes of the stream's state.
pub open spec fn state_after(wire: Wire, st: RenderState, frame: Frame) -> RenderState {
    match frame {
        Frame::Refused { .. } => RenderState { decode_failures: one_more(st.decode_failures), ..st },
        Frame::Message { kind: _, seq, body } => RenderState {
            last_seq: Some(seq),
            warned_mismatch: st.warned_mismatch || match body {
                Body::Hello(h) => h.protocol_version != wire.protocol_version,
                _ => false,
            },
            ..st
        },
    }
}

/// What is written for one frame.
pub open spec fn frame_emits(
    wire: Wire,
    st: RenderState,
    frame: Frame,
    mode: OutputMode,
    view: Stream,
    now: Seq<char>,
) -> Seq<EmitV> {
    match frame {
        Frame::Refused { error, bad_version: _ } => seq![
            refused_text(error@, one_more(st.decode_failures), mode),
        ],
        Frame::Message { kind, seq, body } => {
            let gap = match baseline(st.last_seq, kind) {
                Some(prev) => if seq != follower(prev) {
                    seq![gap_text(follower(prev), seq, mode)]
                } else {
                    Seq::empty()
                },
                None => Seq::empty(),
            };
            gap + body_emits(wire, body, mode, view, st.warned_mismatch, now)
        },
    }
}

fn emit_refused(error: &str, count: u64, mode: OutputMode) -> (r: Emit)
    ensures
        r.deep_view() == refused_text(error@, count, mode),
{
    match mode {
        OutputMode::Json => Emit::Line(
            cat5(
                "{\"type\":\"decode_error\",\"error\":",
                json_str(error).as_str(),
                ",\"count\":",
                dec_u64(count).as_str(),
                "}",
            ),
        ),
        OutputMode::Text { colors: _ } => Emit::Note(
            cat5(
                "[tower] dropped a corrupt frame: ",
                error,
                " (",
                dec_u64(count).as_str(),
                " undecodable frame(s) — version mismatch?)",
            ),
        ),
    }
}

fn emit_gap(expected: u16, got: u16, mode: OutputMode) -> (r: Emit)
    ensures
        r.deep_view() == gap_text(expected, got, mode),
{
    match mode {
        OutputMode::Json => Emit::Line(
            cat5(
                "{\"type\":\"seq_gap\",\"expected\":",
                dec_u64(expected as u64).as_str(),
                ",\"got\":",
                dec_u64(got as u64).as_str(),
                "}",
            ),
        ),
        OutputMode::Text { colors: _ } => Emit::Note(
            cat4(
                "[tower] seq gap: expected ",
                dec_u64(expected as u64).as_str(),
                ", got ",
                dec_u64(got as u64).as_str(),
            ),
        ),
    }
}

fn emit_log(l: &Log, mode: OutputMode, now: &str) -> (r: Emit)
    ensures
        r.deep_view() == log_emit(*l, mode, now@),
{
    match mode {
        OutputMode::Text { colors } => {
            let label = paint(level_label(l.level), level_ansi(l.level), colors);
            Emit::Line(cat3(now, " ", log_with(l, label.as_str()).as_str()))
        },
        OutputMode::Json => {
            let head = cat4(
                "{\"type\":\"log\",\"uptime_us\":",
                dec_u64(l.uptime_us).as_str(),
                ",\"level\":",
                json_str(level_name(l.level)).as_str(),
            );
            Emit::Line(
                cat6(
                    head.as_str(),
                    ",\"module\":",
                    json_str(l.module.as_str()).as_str(),
                    ",\"message\":",
                    json_str(l.message.as_str()).as_str(),
                    "}",
                ),
            )
        },
    }
}

fn emit_print(text: &str, mode: OutputMode) -> (r: Emit)
    ensures
        r.deep_view() == print_emit(text@, mode),
{
    match mode {
        OutputMode::Text { colors: _ } => Emit::Text(text.to_owned()),
        OutputMode::Json => Emit::Line(
            cat3("{\"type\":\"print\",\"text\":", json_str(text).as_str(), "}"),
        ),
    }
}

fn emit_dropped(count: u32, mode: OutputMode) -> (r: Emit)
    ensures
        r.deep_view() == dropped_emit(count, mode),
{
    match mode {
        OutputMode::Text { colors } => Emit::Note(
            cat4(
                paint("⚠", 33, colors).as_str(),
                " ",
                dec_u64(count as u64).as_str(),
                " log frame(s) dropped (device queue full)",
            ),
        ),
        OutputMode::Json => Emit::Line(
            cat3("{\"type\":\"dropped\",\"count\":", dec_u64(count as u64).as_str(), "}"),
        ),
    }
}

fn emit_event(e: &EventMsg, mode: OutputMode, now: &str) -> (r: Emit)
    ensures
        r.deep_view() == event_emit(*e, mode, now@),
{
    match mode {
        OutputMode::Text { colors } => Emit::Line(
            cat7(
                now,
                " ",
                paint("EVENT", 35, colors).as_str(),
                " ",
                e.name.as_str(),
                "  ",
                event_fields(e).as_str(),
            ),
        ),
        OutputMode::Json => Emit::Line(
            cat5(
                "{\"type\":\"event\",\"name\":",
                json_str(e.name.as_str()).as_str(),
                ",\"fields\":",
                event_members(e).as_str(),
                "}",
            ),
        ),
    }
}

/// Appends what `more` holds.
fn append_emits(out: &mut Vec<Emit>, more: Vec<Emit>)
    ensures
        final(out).deep_view() == old(out).deep_view() + more.deep_view(),
{
    let mut rest = more;
    let ghost a = out.deep_view();
    out.append(&mut rest);
    assert(out.deep_view() =~= a + more.deep_view());
}

fn emit_hello(
    wire: &Wire,
    h: &Hello,
    warned: bool,
    mode: OutputMode,
    view: Stream,
    now: &str,
    out: &mut Vec<Emit>,
)
    ensures
        final(out).deep_view() == old(out).deep_view() + body_emits(
            *wire,
            Body::Hello(*h),
            mode,
            view,
            warned,
            now@,
        ),
{
    let ghost start = out.deep_view();
    let hello = cat4(
        "[tower] hello: firmware ",
        debug_of(h.firmware_version.as_str()).as_str(),
        ", protocol v",
        dec_u64(h.protocol_version as u64).as_str(),
    );
    push_deep(out, Emit::Note(hello));
    if h.protocol_version != wire.protocol_version && !warned {
        append_emits(out, warn_protocol_mismatch(wire, h.protocol_version));
    }
    assert(out.deep_view() =~= start + body_emits(*wire, Body::Hello(*h), mode, view, warned, now@));
}

/// Renders one frame and accounts for it. `now` is the time of day.
pub fn render(
    wire: &Wire,
    frame: &Frame,
    mode: OutputMode,
    view: Stream,
    st: &mut RenderState,
    now: &str,
) -> (out: Vec<Emit>)
    ensures
        *final(st) == state_after(*wire, *old(st), *frame),
        out.deep_view() == frame_emits(*wire, *old(st), *frame, mode, view, now@),
{
    let mut out: Vec<Emit> = Vec::new();
    match frame {
        Frame::Refused { error, bad_version: _ } => {
            st.decode_failures = st.decode_failures.saturating_add(1);
            out.push(emit_refused(error.as_str(), st.decode_failures, mode));
            assert(out.deep_view() =~= frame_emits(*wire, *old(st), *frame, mode, view, now@));
        },
        Frame::Message { kind, seq, body } => {
            let before = match *kind {
                MsgType::Hello => None,
                _ => st.last_seq,
            };
            if let Some(prev) = before {
                let expected = prev.wrapping_add(1);
                if *seq != expected {
                    out.push(emit_gap(expected, *seq, mode));
                }
            }
            let ghost gap = out.deep_view();
            assert(gap =~= match baseline(old(st).last_seq, *kind) {
                Some(prev) => if *seq != follower(prev) {
                    seq![gap_text(follower(prev), *seq, mode)]
                } else {
                    Seq::empty()
                },
                None => Seq::empty(),
            });
            st.last_seq = Some(*seq);
            match body {
                Body::Hello(h) => {
                    emit_hello(wire, h, st.warned_mismatch, mode, view, now, &mut out);
                    if h.protocol_version != wire.protocol_version {
                        st.warned_mismatch = true;
                    }
                },
                Body::Log(l) => {
                    if let Stream::Logs = view {
                        push_deep(&mut out, emit_log(l, mode, now));
                    }
                },
                Body::Print { text } => {
                    if let Stream::Logs = view {
                        push_deep(&mut out, emit_print(text.as_str(), mode));
                    }
                },
                Body::Dropped { count } => {
                    if let Stream::Logs = view {
                        push_deep(&mut out, emit_dropped(*count, mode));
                    }
                },
                Body::Event(e) => {
                    if let Stream::Events = view {
                        push_deep(&mut out, emit_event(e, mode, now));
                    }
                },
                _ => {},
            }
            assert(out.deep_view() =~= gap + body_emits(
                *wire,
                *body,
                mode,
                view,
                old(st).warned_mismatch,
                now@,
            ));
        },
    }
    out
}

/// Renders one frame at the present time of day and accounts for it.
pub fn render_now(
    wire: &Wire,
    frame: &Frame,
    mode: OutputMode,
    view: Stream,
    st: &mut RenderState,
) -> (out: Vec<Emit>)
    ensures
        *final(st) == state_after(*wire, *old(st), *frame),
        exists|clock: Seq<char>| #[trigger]
            is_clock_ms(clock) && out.deep_view() == frame_emits(
                *wire,
                *old(st),
                *frame,
                mode,
                view,
                clock,
            ),
{
    let clock = now();
    render(wire, frame, mode, view, st, clock.as_str())
}

/// A dump of bytes: two lower-case digits each, without separators.
pub fn hexline(bytes: &[u8]) -> (r: String)
    ensures
        r@ == hex_bytes(bytes@),
{
    bytes_hex(bytes)
}

// ---- laws --------------------------------------------------------------------------

/// A JSON string holds no control character, so a record never breaks over two lines.
pub proof fn law_json_is_one_line(s: Seq<char>)
    ensures
        forall|i: int| 0 <= i < json_text(s).len() ==> (#[trigger] json_text(s)[i] as u32) >= 0x20,
{
    reveal_strlit("\"");
    lemma_escaped_all_printable(s);
    let t = json_text(s);
    let body = escaped_all(s);
    assert forall|i: int| 0 <= i < t.len() implies (#[trigger] t[i] as u32) >= 0x20 by {
        if 1 <= i < 1 + body.len() {
            assert(t[i] == body[i - 1]);
        }
    }
}

proof fn lemma_escaped_printable(c: char)
    ensures
        forall|i: int| 0 <= i < escaped(c).len() ==> (#[trigger] escaped(c)[i] as u32) >= 0x20,
{
    reveal_strlit("\\\"");
    reveal_strlit("\\\\");
    reveal_strlit("\\n");
    reveal_strlit("\\r");
    reveal_strlit("\\t");
    reveal_strlit("\\u");
    lemma_hex_digits(c as nat, 4);
    let e = escaped(c);
    assert forall|i: int| 0 <= i < e.len() implies (#[trigger] e[i] as u32) >= 0x20 by {
        if (c as u32) < 0x20 && c != '\n' && c != '\r' && c != '\t' && i >= 2 {
            assert(e[i] == hex(c as nat, 4)[i - 2]);
        }
    }
}

proof fn lemma_escaped_all_printable(s: Seq<char>)
    ensures
        forall|i: int|
            0 <= i < escaped_all(s).len() ==> (#[trigger] escaped_all(s)[i] as u32) >= 0x20,
    decreases s.len(),
{
    if s.len() > 0 {
        lemma_escaped_all_printable(s.drop_last());
        lemma_escaped_printable(s.last());
        let a = escaped_all(s.drop_last());
        let e = escaped_all(s);
        assert forall|i: int| 0 <= i < e.len() implies (#[trigger] e[i] as u32) >= 0x20 by {
            if i < a.len() {
                assert(e[i] == a[i]);
            } else {
                assert(e[i] == escaped(s.last())[i - a.len()]);
            }
        }
    }
}

/// A `Hello` is never reported as a gap, whatever number came before it.
pub proof fn law_hello_starts_a_new_count(
    wire: Wire,
    st: RenderState,
    seq: u16,
    body: Body,
    mode: OutputMode,
    view: Stream,
    now: Seq<char>,
)
    ensures
        ({
            let f = Frame::Message { kind: MsgType::Hello, seq, body };
            &&& frame_emits(wire, st, f, mode, view, now) == body_emits(
                wire,
                body,
                mode,
                view,
                st.warned_mismatch,
                now,
            )
            &&& state_after(wire, st, f).last_seq == Some(seq)
        }),
{
    let b = body_emits(wire, body, mode, view, st.warned_mismatch, now);
    assert(Seq::<EmitV>::empty() + b =~= b);
}

/// The mismatch banner is shown at most once along a stream: after a frame that showed
/// it, no frame shows it again.
pub proof fn law_banner_once(wire: Wire, st: RenderState, frame: Frame)
    ensures
        st.warned_mismatch ==> state_after(wire, st, frame).warned_mismatch,
        frame matches Frame::Message { kind: _, seq: _, body: Body::Hello(h) }
            && h.protocol_version != wire.protocol_version ==> state_after(
            wire,
            st,
            frame,
        ).warned_mismatch,
{
}

} // verus!
