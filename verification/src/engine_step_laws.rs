//! Which part of the gateway's engine takes an input, and what it does where a link comes
//! and goes.

use crate::engine_dispatch_laws::alike;
use crate::engine_model::{
    issue, on_encode_failed, on_mqtt, on_mqtt_up, on_rpc, on_serial, on_shell_req, on_tick,
    publish_status, step, World,
};
use crate::engine_state::{EngineV, EventV, FrontendCmd, Input, OpKindV, OutputV};
use crate::mgmt::MgmtOpV;
use vstd::prelude::*;

verus! {

/// A link that comes or goes is told, with the state of the other.
pub open spec fn tells_links(a: World, serial_up: bool, mqtt_up: bool) -> World {
    World { e: a.e, out: a.out.push(OutputV::Event(EventV::Link { serial_up, mqtt_up })) }
}

/// A line is logged.
pub open spec fn tells(a: World, line: Seq<char>) -> World {
    World { e: a.e, out: a.out.push(OutputV::Event(EventV::Log(line))) }
}

/// Where a link is lost, that is told with the reason, and the status is published.
pub proof fn law_lost_links(w: World, error: String, ts: u64, key: Option<Seq<u8>>)
    ensures
        alike(
            step(w, Input::SerialDown { error }, ts, key),
            tells(
                tells_links(
                    publish_status(World { e: EngineV { serial_up: false, ..w.e }, out: w.out }),
                    false,
                    w.e.mqtt_up,
                ),
                "serial lost: "@ + error@,
            ),
        ),
        alike(
            step(w, Input::MqttDown { error }, ts, key),
            tells(
                tells_links(
                    World { e: EngineV { mqtt_up: false, ..w.e }, out: w.out },
                    w.e.serial_up,
                    false,
                ),
                "mqtt lost: "@ + error@,
            ),
        ),
{
}

/// Where the device is there again, that is told, the status is published, and the device is
/// asked what it is.
pub proof fn law_the_device_is_there_again(w: World, ts: u64, key: Option<Seq<u8>>)
    ensures
        alike(
            step(w, Input::SerialUp, ts, key),
            issue(
                tells_links(
                    publish_status(World { e: EngineV { serial_up: true, ..w.e }, out: w.out }),
                    true,
                    w.e.mqtt_up,
                ),
                OpKindV::Describe,
                MgmtOpV::Describe,
                None,
            ),
        ),
{
}

/// Every other input goes to its part of the engine.
pub proof fn law_inputs_go_to_their_parts(w: World, input: Input, ts: u64, key: Option<Seq<u8>>)
    ensures
        input matches Input::SerialFrame(msg) ==> alike(
            step(w, input, ts, key),
            on_serial(w, msg, ts),
        ),
        input matches Input::EncodeFailed { req_id, envelope } ==> alike(
            step(w, input, ts, key),
            on_encode_failed(w, req_id, envelope),
        ),
        input is MqttUp ==> alike(step(w, input, ts, key), on_mqtt_up(w)),
        input matches Input::MqttIn { topic, rpc, shell } ==> alike(
            step(w, input, ts, key),
            on_mqtt(w, topic@, rpc, shell, key),
        ),
        input matches Input::Frontend(FrontendCmd::Rpc(req)) ==> alike(
            step(w, input, ts, key),
            on_rpc(w, req.deep_view(), key),
        ),
        input matches Input::Frontend(FrontendCmd::Shell { node, req }) ==> alike(
            step(w, input, ts, key),
            on_shell_req(w, node, req),
        ),
        input is Tick ==> alike(step(w, input, ts, key), on_tick(w)),
{
}

} // verus!
