//! Where things stand on the screen, for areas of every size.

use tower_cli::dashboard::PaneZones;
use tower_cli::layout::{pane_zones, render_split, screen};
use tower_cli::style::Rect;

/// Every size up to some hundreds, and sizes further up, with what they are at the end.
fn sizes() -> Vec<u16> {
    let mut v: Vec<u16> = (0..420).collect();
    v.extend((420..65535u16).step_by(977));
    v.extend([32767, 32768, 65533, 65534, 65535]);
    v
}

/// Where an area starts, and what can be divided of `n` cells there.
fn starts(n: u16) -> [(u16, u32); 3] {
    let at = |x: u16| (x, (n as u32).min(65535 - x as u32));
    [at(0), at(7), at(65000)]
}

fn percentage(p: u32, n: u32) -> u32 {
    (p * n + 50) / 100
}

fn share(a: u32, b: u32, n: u32) -> u32 {
    ((200 * a * n + (a + b)) / (2 * (a + b)) + 50) / 100
}

#[test]
fn screens_of_every_height() {
    for height in sizes() {
        for (y, n) in starts(height) {
            for least in [0u16, 3, 40, 32767, 40000] {
                let s = screen(Rect { x: 3, y, width: 9, height }, least);
                for r in [s.header, s.body, s.footer] {
                    assert_eq!((r.x, r.width), (3, 9));
                }
                let at = format!("{y} {height} {least} {s:?}");
                assert_eq!(s.header.y, y, "{at}");
                assert_eq!(s.body.y, s.header.y + s.header.height, "{at}");
                assert_eq!(s.footer.y, s.body.y + s.body.height, "{at}");
                assert_eq!(s.footer.y as u32 + s.footer.height as u32, y as u32 + n, "{at}");
                if n >= least as u32 + 2 {
                    assert_eq!((s.header.height, s.footer.height), (1, 1), "{at}");
                }
                if least <= 32767 {
                    assert!(s.body.height as u32 >= n.min(least as u32), "{at}");
                }
            }
        }
    }
}

fn check_zones(x: u16, w: u32, y: u16, h: u32, body: Rect, z: PaneZones) {
    let at = format!("{body:?} {z:?}");
    assert_eq!((z.nodes.x, z.nodes.y), (x, y), "{at}");
    assert_eq!((z.radio.x, z.radio.y), (x + z.nodes.width, y), "{at}");
    assert_eq!((z.shell.x, z.shell.y), (x, y + z.nodes.height), "{at}");
    assert_eq!((z.mqtt.x, z.mqtt.y), (x + z.shell.width, z.shell.y), "{at}");
    assert_eq!((z.log.x, z.log.y), (x, z.shell.y + z.shell.height), "{at}");
    assert_eq!((z.radio.height, z.mqtt.height), (z.nodes.height, z.shell.height), "{at}");
    assert_eq!(z.nodes.width as u32, percentage(58, w), "{at}");
    assert_eq!(z.shell.width as u32, percentage(45, w), "{at}");
    assert_eq!(z.radio.x as u32 + z.radio.width as u32, x as u32 + w, "{at}");
    assert_eq!(z.mqtt.x as u32 + z.mqtt.width as u32, x as u32 + w, "{at}");
    assert_eq!((z.log.width, z.log.height as u32), (body.width, h.min(8)), "{at}");
    assert_eq!(z.log.y as u32 + z.log.height as u32, y as u32 + h, "{at}");
    if h >= 8 {
        assert_eq!(z.nodes.height as u32, share(5, 6, h - 8), "{at}");
    }
}

#[test]
fn zones_of_every_height() {
    for height in sizes() {
        for (y, h) in starts(height) {
            let body = Rect { x: 2, y, width: 80, height };
            check_zones(2, 80, y, h, body, pane_zones(body));
        }
    }
}

#[test]
fn zones_of_every_width() {
    for width in sizes() {
        for (x, w) in starts(width) {
            let body = Rect { x, y: 1, width, height: 30 };
            check_zones(x, w, 1, 30, body, pane_zones(body));
        }
    }
}

fn check_areas(x: u16, w: u32, y: u16, h: u32, body: Rect) {
    let a = render_split(body);
    let at = format!("{body:?} {a:?}");
    for r in [a.events, a.command, a.responses] {
        assert_eq!((r.x, r.width as u32), (x, percentage(50, w)), "{at}");
    }
    assert_eq!(a.events.y, y, "{at}");
    assert_eq!(a.command.y, y + a.events.height, "{at}");
    assert_eq!(a.responses.y, a.command.y + a.command.height, "{at}");
    assert_eq!(a.responses.y as u32 + a.responses.height as u32, y as u32 + h, "{at}");
    let events = if h >= 4 { percentage(25, h) } else { 0 };
    assert_eq!((a.events.height as u32, a.command.height as u32), (events, h.min(3)), "{at}");
    assert_eq!((a.logs.x, a.logs.y), (x + a.events.width, y), "{at}");
    assert_eq!(a.logs.x as u32 + a.logs.width as u32, x as u32 + w, "{at}");
    assert_eq!(a.logs.height, body.height, "{at}");
}

#[test]
fn console_of_every_height() {
    for height in sizes() {
        for (y, h) in starts(height) {
            check_areas(2, 80, y, h, Rect { x: 2, y, width: 80, height });
        }
    }
}

#[test]
fn console_of_every_width() {
    for width in sizes() {
        for (x, w) in starts(width) {
            check_areas(x, w, 1, 30, Rect { x, y: 1, width, height: 30 });
        }
    }
}
