//! What the streaming commands write, said of the frames and the lines themselves.

use crate::frame::{Body, EventMsg, Frame, Hello, Level, Log, MsgType};
use crate::render::{
    frame_emits, json_text, state_after, EmitV, OutputMode, RenderState, Stream,
};
use crate::text::{debug_text, dec, join, pad_left, three_digits};
use crate::wire::Wire;
use vstd::prelude::*;

verus! {

/// A frame with the number `seq` follows what came before.
pub open spec fn in_turn(st: RenderState, kind: MsgType, seq: u16) -> bool {
    match st.last_seq {
        None => true,
        Some(last) => kind == MsgType::Hello || seq == (last + 1) % 0x1_0000,
    }
}

/// `print!` output belongs to the logs: as it is in text, one record in JSON. The events
/// have nothing of it.
pub proof fn law_prints_are_logs(
    wire: Wire,
    st: RenderState,
    kind: MsgType,
    seq: u16,
    text: String,
    mode: OutputMode,
    view: Stream,
    now: Seq<char>,
)
    requires
        in_turn(st, kind, seq),
    ensures
        frame_emits(
            wire,
            st,
            Frame::Message { kind, seq, body: Body::Print { text } },
            mode,
            view,
            now,
        ) == match (view, mode) {
            (Stream::Logs, OutputMode::Text { colors: _ }) => seq![EmitV::Text(text@)],
            (Stream::Logs, OutputMode::Json) => seq![
                EmitV::Line("{\"type\":\"print\",\"text\":"@ + json_text(text@) + "}"@),
            ],
            (Stream::Events, _) => Seq::empty(),
        },
{
    let b = crate::render::body_emits(
        wire,
        Body::Print { text },
        mode,
        view,
        st.warned_mismatch,
        now,
    );
    assert(Seq::<EmitV>::empty() + b =~= b);
}

/// How a level is written in a log line, five characters wide.
pub open spec fn label(level: Level) -> Seq<char> {
    match level {
        Level::Error => "ERROR"@,
        Level::Warn => "WARN "@,
        Level::Info => "INFO "@,
        Level::Debug => "DEBUG"@,
        Level::Trace => "TRACE"@,
    }
}

/// How a level is written in a record.
pub open spec fn level_name(level: Level) -> Seq<char> {
    match level {
        Level::Error => "ERROR"@,
        Level::Warn => "WARN"@,
        Level::Info => "INFO"@,
        Level::Debug => "DEBUG"@,
        Level::Trace => "TRACE"@,
    }
}

/// The number of a level's colour.
pub open spec fn color_number(level: Level) -> nat {
    match level {
        Level::Error => 31,
        Level::Warn => 33,
        Level::Info => 32,
        Level::Debug => 36,
        Level::Trace => 90,
    }
}

/// A log record belongs to the logs: the time of day, the uptime in seconds and
/// milliseconds, the level, the module and the message, or all but the time of day as a
/// record in JSON. The events have nothing of it.
pub proof fn law_logs_are_written(
    wire: Wire,
    st: RenderState,
    kind: MsgType,
    seq: u16,
    l: Log,
    mode: OutputMode,
    view: Stream,
    now: Seq<char>,
)
    requires
        in_turn(st, kind, seq),
    ensures
        frame_emits(
            wire,
            st,
            Frame::Message { kind, seq, body: Body::Log(l) },
            mode,
            view,
            now,
        ) == match (view, mode) {
            (Stream::Logs, OutputMode::Text { colors }) => seq![
                EmitV::Line(
                    now + " "@ + ("["@ + pad_left(dec((l.uptime_us / 1_000_000) as nat), 5) + "."@
                        + three_digits(((l.uptime_us / 1_000) % 1_000) as int) + "]"@ + " "@ + (
                    if colors {
                        "\x1b["@ + dec(color_number(l.level)) + "m"@ + label(l.level) + "\x1b[0m"@
                    } else {
                        label(l.level)
                    }) + " "@ + l.module@ + ": "@ + l.message@),
                ),
            ],
            (Stream::Logs, OutputMode::Json) => seq![
                EmitV::Line(
                    "{\"type\":\"log\",\"uptime_us\":"@ + dec(l.uptime_us as nat) + ",\"level\":"@
                        + json_text(level_name(l.level)) + ",\"module\":"@ + json_text(l.module@)
                        + ",\"message\":"@ + json_text(l.message@) + "}"@,
                ),
            ],
            (Stream::Events, _) => Seq::empty(),
        },
{
    let b = crate::render::body_emits(wire, Body::Log(l), mode, view, st.warned_mismatch, now);
    assert(Seq::<EmitV>::empty() + b =~= b);
    let us = l.uptime_us as int;
    assert((us % 1_000_000) / 1_000 == (us / 1_000) % 1_000);
}

/// An event belongs to the events: the time of day, its name and its fields, or name and
/// fields as a record in JSON. The logs have nothing of it.
pub proof fn law_events_are_written(
    wire: Wire,
    st: RenderState,
    kind: MsgType,
    seq: u16,
    e: EventMsg,
    mode: OutputMode,
    view: Stream,
    now: Seq<char>,
)
    requires
        in_turn(st, kind, seq),
    ensures
        frame_emits(
            wire,
            st,
            Frame::Message { kind, seq, body: Body::Event(e) },
            mode,
            view,
            now,
        ) == match (view, mode) {
            (Stream::Events, OutputMode::Text { colors }) => seq![
                EmitV::Line(
                    now + " "@ + (if colors {
                        "\x1b["@ + dec(35) + "m"@ + "EVENT"@ + "\x1b[0m"@
                    } else {
                        "EVENT"@
                    }) + " "@ + e.name@ + "  "@ + join(
                        Seq::new(e.fields@.len(), |i: int| e.fields@[i].0@ + "="@ + e.fields@[i].1@),
                        " "@,
                    ),
                ),
            ],
            (Stream::Events, OutputMode::Json) => seq![
                EmitV::Line(
                    "{\"type\":\"event\",\"name\":"@ + json_text(e.name@) + ",\"fields\":"@ + ("{"@
                        + join(
                        Seq::new(
                            e.fields@.len(),
                            |i: int| json_text(e.fields@[i].0@) + ":"@ + json_text(e.fields@[i].1@),
                        ),
                        ","@,
                    ) + "}"@) + "}"@,
                ),
            ],
            (Stream::Logs, _) => Seq::empty(),
        },
{
    let b = crate::render::body_emits(wire, Body::Event(e), mode, view, st.warned_mismatch, now);
    assert(Seq::<EmitV>::empty() + b =~= b);
    assert(crate::render::field_texts(e.fields@) =~= Seq::new(
        e.fields@.len(),
        |i: int| e.fields@[i].0@ + "="@ + e.fields@[i].1@,
    ));
    assert(crate::render::json_fields(e.fields@) =~= Seq::new(
        e.fields@.len(),
        |i: int| json_text(e.fields@[i].0@) + ":"@ + json_text(e.fields@[i].1@),
    ));
}

/// What the device had to drop is told among the logs.
pub proof fn law_drops_are_told(
    wire: Wire,
    st: RenderState,
    kind: MsgType,
    seq: u16,
    count: u32,
    mode: OutputMode,
    view: Stream,
    now: Seq<char>,
)
    requires
        in_turn(st, kind, seq),
    ensures
        frame_emits(
            wire,
            st,
            Frame::Message { kind, seq, body: Body::Dropped { count } },
            mode,
            view,
            now,
        ) == match (view, mode) {
            (Stream::Logs, OutputMode::Text { colors }) => seq![
                EmitV::Note(
                    (if colors {
                        "\x1b["@ + dec(33) + "m"@ + "⚠"@ + "\x1b[0m"@
                    } else {
                        "⚠"@
                    }) + " "@ + dec(count as nat) + " log frame(s) dropped (device queue full)"@,
                ),
            ],
            (Stream::Logs, OutputMode::Json) => seq![
                EmitV::Line("{\"type\":\"dropped\",\"count\":"@ + dec(count as nat) + "}"@),
            ],
            (Stream::Events, _) => Seq::empty(),
        },
{
    let b = crate::render::body_emits(
        wire,
        Body::Dropped { count },
        mode,
        view,
        st.warned_mismatch,
        now,
    );
    assert(Seq::<EmitV>::empty() + b =~= b);
}

/// A device that comes up is greeted in either stream. Another protocol version than this
/// build's is warned of, once.
pub proof fn law_hellos_are_told(
    wire: Wire,
    st: RenderState,
    seq: u16,
    h: Hello,
    mode: OutputMode,
    view: Stream,
    now: Seq<char>,
)
    ensures
        ({
            let f = Frame::Message { kind: MsgType::Hello, seq, body: Body::Hello(h) };
            let out = frame_emits(wire, st, f, mode, view, now);
            &&& out[0] == EmitV::Note(
                "[tower] hello: firmware "@ + debug_text(h.firmware_version@) + ", protocol v"@
                    + dec(h.protocol_version as nat),
            )
            &&& if h.protocol_version == wire.protocol_version || st.warned_mismatch {
                out.len() == 1
            } else {
                &&& out.len() == 6
                &&& out[2] == EmitV::Note(
                    "[tower] PROTOCOL VERSION MISMATCH: device speaks v"@ + dec(
                        h.protocol_version as nat,
                    ) + ", this `tower` was built for v"@ + dec(wire.protocol_version as nat)
                        + "."@,
                )
            }
            &&& state_after(wire, st, f).warned_mismatch == (st.warned_mismatch
                || h.protocol_version != wire.protocol_version)
        }),
{
}

/// A frame whose number does not follow the one before is told as a gap, in front of all
/// that is written of the frame itself.
pub proof fn law_number_gaps_are_told(
    wire: Wire,
    st: RenderState,
    kind: MsgType,
    seq: u16,
    body: Body,
    mode: OutputMode,
    view: Stream,
    now: Seq<char>,
)
    requires
        !in_turn(st, kind, seq),
    ensures
        ({
            let f = Frame::Message { kind, seq, body };
            let due = ((st.last_seq->0 + 1) % 0x1_0000) as nat;
            frame_emits(wire, st, f, mode, view, now) == seq![
                match mode {
                    OutputMode::Text { colors: _ } => EmitV::Note(
                        "[tower] seq gap: expected "@ + dec(due) + ", got "@ + dec(seq as nat),
                    ),
                    OutputMode::Json => EmitV::Line(
                        "{\"type\":\"seq_gap\",\"expected\":"@ + dec(due) + ",\"got\":"@ + dec(
                            seq as nat,
                        ) + "}"@,
                    ),
                },
            ] + frame_emits(wire, RenderState { last_seq: None, ..st }, f, mode, view, now)
        }),
{
    let b = crate::render::body_emits(wire, body, mode, view, st.warned_mismatch, now);
    assert(Seq::<EmitV>::empty() + b =~= b);
}

/// A frame that the codec refused is told and counted, in either stream.
pub proof fn law_refused_frames_are_counted(
    wire: Wire,
    st: RenderState,
    error: String,
    bad_version: Option<u8>,
    mode: OutputMode,
    view: Stream,
    now: Seq<char>,
)
    requires
        st.decode_failures < u64::MAX,
    ensures
        ({
            let f = Frame::Refused { error, bad_version };
            let n = (st.decode_failures + 1) as nat;
            &&& frame_emits(wire, st, f, mode, view, now) == seq![
                match mode {
                    OutputMode::Text { colors: _ } => EmitV::Note(
                        "[tower] dropped a corrupt frame: "@ + error@ + " ("@ + dec(n)
                            + " undecodable frame(s) — version mismatch?)"@,
                    ),
                    OutputMode::Json => EmitV::Line(
                        "{\"type\":\"decode_error\",\"error\":"@ + json_text(error@)
                            + ",\"count\":"@ + dec(n) + "}"@,
                    ),
                },
            ]
            &&& state_after(wire, st, f) == RenderState {
                decode_failures: (st.decode_failures + 1) as u64,
                ..st
            }
        }),
{
}

/// A frame that was taken leaves its number behind, and no failure.
pub proof fn law_numbers_are_remembered(
    wire: Wire,
    st: RenderState,
    kind: MsgType,
    seq: u16,
    body: Body,
)
    ensures
        ({
            let t = state_after(wire, st, Frame::Message { kind, seq, body });
            &&& t.last_seq == Some(seq) && t.decode_failures == st.decode_failures
            &&& !(body is Hello) ==> t.warned_mismatch == st.warned_mismatch
        }),
{
}

/// Frames that carry neither logs nor events leave nothing behind.
pub proof fn law_other_frames_are_silent(
    wire: Wire,
    st: RenderState,
    kind: MsgType,
    seq: u16,
    body: Body,
    mode: OutputMode,
    view: Stream,
    now: Seq<char>,
)
    requires
        in_turn(st, kind, seq),
        !(body is Hello || body is Log || body is Print || body is Dropped || body is Event),
    ensures
        frame_emits(wire, st, Frame::Message { kind, seq, body }, mode, view, now).len() == 0,
{
}

} // verus!
