//! Choice of the serial port, and the line control that brings a device to a known state.

use crate::text::{cat3, contains, join, join_of, occurs, push_deep};
use vstd::prelude::*;
use vstd::string::*;

verus! {

/// A serial port as the system lists it.
#[derive(Debug, PartialEq)]
pub struct ListedPort {
    pub name: String,
    /// The system knows it as a USB device.
    pub usb: bool,
}

#[verifier::ext_equal]
pub struct ListedPortV {
    pub name: Seq<char>,
    pub usb: bool,
}

impl DeepView for ListedPort {
    type V = ListedPortV;

    open spec fn deep_view(&self) -> ListedPortV {
        ListedPortV { name: self.name@, usb: self.usb }
    }
}

/// A port that a device of ours could be on.
pub open spec fn likely(p: ListedPortV) -> bool {
    p.usb || occurs(p.name, "usbserial"@) || occurs(p.name, "ttyUSB"@) || occurs(p.name, "ttyACM"@)
}

/// The names of those of the first `k` ports that a device could be on.
pub open spec fn likely_names(ports: Seq<ListedPortV>, k: nat) -> Seq<Seq<char>>
    decreases k,
{
    if k == 0 {
        Seq::empty()
    } else {
        let before = likely_names(ports, (k - 1) as nat);
        if likely(ports[k - 1]) {
            before.push(ports[k - 1].name)
        } else {
            before
        }
    }
}

/// The USB serial ports among all that are listed.
pub fn usb_ports(ports: &Vec<ListedPort>) -> (r: Vec<String>)
    ensures
        r.deep_view() == likely_names(ports.deep_view(), ports@.len()),
{
    let mut v: Vec<String> = Vec::new();
    let mut i: usize = 0;
    assert(v.deep_view() =~= Seq::<Seq<char>>::empty());
    while i < ports.len()
        invariant
            i <= ports@.len(),
            v.deep_view() == likely_names(ports.deep_view(), i as nat),
        decreases ports@.len() - i,
    {
        let p = &ports[i];
        let name = p.name.as_str();
        if p.usb || contains(name, "usbserial") || contains(name, "ttyUSB") || contains(
            name,
            "ttyACM",
        ) {
            push_deep(&mut v, p.name.clone());
        }
        i = i + 1;
    }
    v
}

/// The port to use: the one that was asked for, else the only one there is.
pub open spec fn picked(explicit: Option<Seq<char>>, ports: Seq<Seq<char>>) -> Result<
    Seq<char>,
    Seq<char>,
> {
    match explicit {
        Some(p) => Ok(p),
        None => if ports.len() == 1 {
            Ok(ports[0])
        } else if ports.len() == 0 {
            Err("no USB serial device found; pass --device"@)
        } else {
            Err(
                "multiple USB serial devices; pass --device (one of: "@ + join(ports, ", "@) + ")"@,
            )
        },
    }
}

/// The port to use: the one that was asked for, else the only USB serial port. None or
/// several is an error that says what to do.
pub fn pick_port(explicit: Option<String>, ports: &Vec<String>) -> (r: Result<String, String>)
    ensures
        match r {
            Ok(p) => picked(explicit.deep_view(), ports.deep_view()) == Ok::<Seq<char>, Seq<char>>(p@),
            Err(e) => picked(explicit.deep_view(), ports.deep_view()) == Err::<Seq<char>, Seq<char>>(
                e@,
            ),
        },
{
    if let Some(p) = explicit {
        return Ok(p);
    }
    let n: usize = ports.len();
    if n == 1 {
        Ok(ports[0].clone())
    } else if n == 0 {
        Err("no USB serial device found; pass --device".to_owned())
    } else {
        Err(
            cat3(
                "multiple USB serial devices; pass --device (one of: ",
                join_of(ports, ", ").as_str(),
                ")",
            ),
        )
    }
}

// ---- line control ------------------------------------------------------------------

/// One step of bringing a port to a known state.
#[derive(Debug, Clone, Copy, PartialEq, Eq, Structural)]
pub enum LineStep {
    /// Drive RTS (wired to reset).
    Rts(bool),
    /// Drive DTR (wired to the boot selection).
    Dtr(bool),
    /// Wait until the lines have settled.
    RunSettle,
    /// Hold the device in reset.
    ResetPulse,
    /// Drop what was received so far.
    ClearInput,
    /// Say that the device was reset.
    NoteReset,
}

/// The steps of opening a console: the lines go to where the device runs, whatever they
/// were; then it is reset, or what it sent before is dropped.
pub open spec fn attach_steps(reset: bool) -> Seq<LineStep> {
    let baseline = seq![LineStep::Rts(true), LineStep::Dtr(true), LineStep::RunSettle];
    if reset {
        baseline + seq![
            LineStep::Rts(true),
            LineStep::Dtr(false),
            LineStep::ResetPulse,
            LineStep::ClearInput,
            LineStep::Rts(false),
            LineStep::NoteReset,
        ]
    } else {
        baseline.push(LineStep::ClearInput)
    }
}

/// The steps of opening a console. With `reset` the device is rebooted; what it sends from
/// its very start is kept. Without, a late frame of an earlier run is dropped, so that it
/// cannot answer this one.
pub fn open_console(reset: bool) -> (r: Vec<LineStep>)
    ensures
        r@ == attach_steps(reset),
{
    let mut v: Vec<LineStep> = Vec::new();
    v.push(LineStep::Rts(true));
    v.push(LineStep::Dtr(true));
    v.push(LineStep::RunSettle);
    if reset {
        v.push(LineStep::Rts(true));
        v.push(LineStep::Dtr(false));
        v.push(LineStep::ResetPulse);
        v.push(LineStep::ClearInput);
        v.push(LineStep::Rts(false));
        v.push(LineStep::NoteReset);
    } else {
        v.push(LineStep::ClearInput);
    }
    assert(v@ =~= attach_steps(reset));
    v
}

/// The level of RTS after the first `k` steps.
pub open spec fn rts_after(steps: Seq<LineStep>, k: nat) -> Option<bool>
    decreases k,
{
    if k == 0 {
        None
    } else {
        match steps[k - 1] {
            LineStep::Rts(level) => Some(level),
            _ => rts_after(steps, (k - 1) as nat),
        }
    }
}

/// The level of DTR after the first `k` steps.
pub open spec fn dtr_after(steps: Seq<LineStep>, k: nat) -> Option<bool>
    decreases k,
{
    if k == 0 {
        None
    } else {
        match steps[k - 1] {
            LineStep::Dtr(level) => Some(level),
            _ => dtr_after(steps, (k - 1) as nat),
        }
    }
}

/// Opening a port never leaves the device held in reset (RTS asserted against DTR).
pub proof fn law_attach_lets_the_device_run(reset: bool)
    ensures
        ({
            let s = attach_steps(reset);
            !(rts_after(s, s.len()) == Some(true) && dtr_after(s, s.len()) == Some(false))
        }),
{
    reveal_with_fuel(rts_after, 10);
    reveal_with_fuel(dtr_after, 10);
}

} // verus!
