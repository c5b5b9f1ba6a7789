//! The device table `attentio list` prints.

use vstd::prelude::*;
use vstd::string::*;
use vstd::utf8::*;

use crate::device::discovery::{ports_spec, AttentioDevice, CdcPort, DeviceMode};
use crate::text::{chars_of, dec_spec, dec_string, join, join_spec, push_char, strings_view};

verus! {

/// The display name of a mode.
pub open spec fn mode_name(m: DeviceMode) -> Seq<char> {
    match m {
        DeviceMode::Normal => "Normal"@,
        DeviceMode::Bootloader => "Bootloader"@,
        DeviceMode::Unknown => "Unknown"@,
    }
}

/// Formats the STATUS column for a device.
pub fn format_status(device: &AttentioDevice) -> (r: String)
    ensures
        r@ == mode_name(device.mode),
{
    device.mode.display_name().to_owned()
}

/// How a port is listed: its path and, in brackets, its role, or
/// "Bootloader/DFU" for a device in bootloader mode.
pub open spec fn port_label(p: CdcPort, mode: DeviceMode) -> Seq<char> {
    p.path@ + " ["@ + (if mode == DeviceMode::Bootloader {
        "Bootloader/DFU"@
    } else if p.role == crate::device::discovery::CdcRole::Protocol {
        "protocol"@
    } else {
        "serial"@
    }) + "]"@
}

/// The PORTS text of a device: its ports' labels separated by ", ", or "-".
pub open spec fn ports_text(d: AttentioDevice) -> Seq<char> {
    let ps = ports_spec(d);
    if ps.len() == 0 {
        "-"@
    } else {
        join_spec(ps.map_values(|p: CdcPort| port_label(p, d.mode)), ", "@)
    }
}

/// Formats the ports of a device for the table.
pub fn format_ports(device: &AttentioDevice) -> (r: String)
    ensures
        r@ == ports_text(*device),
{
    let ports = device.all_ports();
    if ports.len() == 0 {
        return "-".to_owned();
    }
    let ghost ps = ports_spec(*device);
    let mut labels: Vec<String> = Vec::new();
    let mut i: usize = 0;
    while i < ports.len()
        invariant
            i <= ports@.len(),
            ports@.len() == ps.len(),
            ps == ports_spec(*device),
            forall|k: int| 0 <= k < ports@.len() ==> *ports@[k] == ps[k],
            strings_view(labels@) == ps.take(i as int).map_values(
                |p: CdcPort| port_label(p, device.mode),
            ),
        decreases ports@.len() - i,
    {
        let p = ports[i];
        let mut l = p.path.clone();
        l.append(" [");
        if device.mode == DeviceMode::Bootloader {
            l.append("Bootloader/DFU");
        } else {
            l.append(p.role.display_name());
        }
        l.append("]");
        let ghost before = labels@;
        labels.push(l);
        i = i + 1;
        proof {
            assert(strings_view(labels@) =~= strings_view(before).push(port_label(ps[i - 1], device.mode)));
            assert(ps.take(i as int).map_values(|p: CdcPort| port_label(p, device.mode)) =~= ps.take(
                i - 1,
            ).map_values(|p: CdcPort| port_label(p, device.mode)).push(port_label(ps[i - 1], device.mode)));
        }
    }
    proof {
        assert(ps.take(ps.len() as int) =~= ps);
    }
    join(labels.as_slice(), ", ")
}

// ── The table ────────────────────────────────────────────────────────────────

/// The number of UTF-8 bytes of a text (what `str::len` counts).
pub open spec fn byte_len(s: Seq<char>) -> nat {
    encode_utf8(s).len()
}

/// An optional text, or "-".
pub open spec fn or_dash(o: Option<String>) -> Seq<char> {
    match o {
        Some(s) => s@,
        None => "-"@,
    }
}

/// The largest of `min` and the lengths.
pub open spec fn max_over(lens: Seq<nat>, min: nat) -> nat
    decreases lens.len(),
{
    if lens.len() == 0 {
        min
    } else {
        let m = max_over(lens.drop_last(), min);
        if lens.last() > m {
            lens.last()
        } else {
            m
        }
    }
}

/// `n` copies of `c`.
pub open spec fn repeat_char(c: char, n: nat) -> Seq<char> {
    Seq::new(n, |i: int| c)
}

/// `s` padded with spaces on the right to `w` characters (`{:<w$}`).
pub open spec fn pad_right(s: Seq<char>, w: nat) -> Seq<char> {
    if s.len() >= w {
        s
    } else {
        s + repeat_char(' ', (w - s.len()) as nat)
    }
}

/// The column widths: index, name, type, status, serial.
pub open spec fn widths(ds: Seq<AttentioDevice>) -> Seq<nat> {
    seq![
        max_over(seq![dec_spec(ds.len()).len()], 1),
        max_over(ds.map_values(|d: AttentioDevice| byte_len(or_dash(d.product))), 11),
        max_over(ds.map_values(|d: AttentioDevice| byte_len(or_dash(d.device_type))), 11),
        max_over(ds.map_values(|d: AttentioDevice| byte_len(mode_name(d.mode))), 6),
        max_over(ds.map_values(|d: AttentioDevice| byte_len(d.serial@)), 6),
    ]
}

/// One table line: the five cells padded to their widths, two spaces apart.
pub open spec fn row(cells: Seq<Seq<char>>, w: Seq<nat>) -> Seq<char> {
    pad_right(cells[0], w[0]) + "  "@ + pad_right(cells[1], w[1]) + "  "@ + pad_right(
        cells[2],
        w[2],
    ) + "  "@ + pad_right(cells[3], w[3]) + "  "@ + pad_right(cells[4], w[4])
}

/// The two lines (and the blank separator before the next) of device `i`.
pub open spec fn device_lines(ds: Seq<AttentioDevice>, i: int) -> Seq<Seq<char>> {
    let d = ds[i];
    let w = widths(ds);
    let first = row(
        seq![
            dec_spec((i + 1) as nat),
            or_dash(d.product),
            or_dash(d.device_type),
            mode_name(d.mode),
            d.serial@,
        ],
        w,
    );
    let second = repeat_char(' ', w[0] + 2) + "Ports: "@ + ports_text(d) + "   USB: "@ + or_dash(
        d.usb_location,
    );
    if i + 1 < ds.len() {
        seq![first, second, Seq::empty()]
    } else {
        seq![first, second]
    }
}

/// The lines of the devices from 0 up to `n`.
pub open spec fn all_device_lines(ds: Seq<AttentioDevice>, n: int) -> Seq<Seq<char>>
    decreases n,
{
    if n <= 0 {
        Seq::empty()
    } else {
        all_device_lines(ds, n - 1) + device_lines(ds, n - 1)
    }
}

/// The whole table: header, rule, the devices, a blank line and the count.
pub open spec fn table_spec(ds: Seq<AttentioDevice>) -> Seq<Seq<char>> {
    let w = widths(ds);
    let header = row(seq!["#"@, "DEVICE NAME"@, "DEVICE TYPE"@, "STATUS"@, "SERIAL"@], w);
    let rule = row(
        seq![
            repeat_char('-', w[0]),
            repeat_char('-', w[1]),
            repeat_char('-', w[2]),
            repeat_char('-', w[3]),
            repeat_char('-', w[4]),
        ],
        w,
    );
    seq![header, rule] + all_device_lines(ds, ds.len() as int) + seq![
        Seq::empty(),
        dec_spec(ds.len()) + " device(s) found."@,
    ]
}

fn repeat_string(c: char, n: usize) -> (r: String)
    ensures
        r@ == repeat_char(c, n as nat),
{
    let mut r = String::new();
    let mut i: usize = 0;
    while i < n
        invariant
            i <= n,
            r@ == repeat_char(c, i as nat),
        decreases n - i,
    {
        push_char(&mut r, c);
        i = i + 1;
        proof {
            assert(r@ =~= repeat_char(c, i as nat));
        }
    }
    r
}

pub fn pad_string(s: &str, w: usize) -> (r: String)
    ensures
        r@ == pad_right(s@, w as nat),
{
    let n = chars_of(s).len();
    let mut r = s.to_owned();
    if n < w {
        r.append(repeat_string(' ', w - n).as_str());
    }
    r
}

fn row_string(c0: &str, c1: &str, c2: &str, c3: &str, c4: &str, w: &Vec<usize>) -> (r: String)
    requires
        w@.len() == 5,
    ensures
        r@ == row(seq![c0@, c1@, c2@, c3@, c4@], w@.map_values(|x: usize| x as nat)),
{
    let mut r = pad_string(c0, w[0]);
    r.append("  ");
    r.append(pad_string(c1, w[1]).as_str());
    r.append("  ");
    r.append(pad_string(c2, w[2]).as_str());
    r.append("  ");
    r.append(pad_string(c3, w[3]).as_str());
    r.append("  ");
    r.append(pad_string(c4, w[4]).as_str());
    r
}

fn opt_or_dash(o: &Option<String>) -> (r: &str)
    ensures
        r@ == or_dash(*o),
{
    match o {
        Some(s) => s.as_str(),
        None => "-",
    }
}

/// Largest of `min` and each device's byte length for a column.
fn column_width(ds: &[AttentioDevice], col: u8, min: usize) -> (w: usize)
    requires
        1 <= col <= 4,
    ensures
        w == max_over(
            if col == 1 {
                ds@.map_values(|d: AttentioDevice| byte_len(or_dash(d.product)))
            } else if col == 2 {
                ds@.map_values(|d: AttentioDevice| byte_len(or_dash(d.device_type)))
            } else if col == 3 {
                ds@.map_values(|d: AttentioDevice| byte_len(mode_name(d.mode)))
            } else {
                ds@.map_values(|d: AttentioDevice| byte_len(d.serial@))
            },
            min as nat,
        ),
{
    let ghost lens = if col == 1 {
        ds@.map_values(|d: AttentioDevice| byte_len(or_dash(d.product)))
    } else if col == 2 {
        ds@.map_values(|d: AttentioDevice| byte_len(or_dash(d.device_type)))
    } else if col == 3 {
        ds@.map_values(|d: AttentioDevice| byte_len(mode_name(d.mode)))
    } else {
        ds@.map_values(|d: AttentioDevice| byte_len(d.serial@))
    };
    let mut w = min;
    let mut i: usize = 0;
    while i < ds.len()
        invariant
            i <= ds@.len(),
            lens.len() == ds@.len(),
            1 <= col <= 4,
            lens == (if col == 1 {
                ds@.map_values(|d: AttentioDevice| byte_len(or_dash(d.product)))
            } else if col == 2 {
                ds@.map_values(|d: AttentioDevice| byte_len(or_dash(d.device_type)))
            } else if col == 3 {
                ds@.map_values(|d: AttentioDevice| byte_len(mode_name(d.mode)))
            } else {
                ds@.map_values(|d: AttentioDevice| byte_len(d.serial@))
            }),
            w == max_over(lens.take(i as int), min as nat),
        decreases ds@.len() - i,
    {
        let d = &ds[i];
        let len = if col == 1 {
            opt_or_dash(&d.product).as_bytes().len()
        } else if col == 2 {
            opt_or_dash(&d.device_type).as_bytes().len()
        } else if col == 3 {
            d.mode.display_name().as_bytes().len()
        } else {
            d.serial.as_str().as_bytes().len()
        };
        proof {
            assert(len == lens[i as int]);
            assert(lens.take(i + 1).drop_last() =~= lens.take(i as int));
        }
        if len > w {
            w = len;
        }
        i = i + 1;
    }
    proof {
        assert(lens.take(ds@.len() as int) =~= lens);
    }
    w
}

/// The lines of the device table `attentio list` prints.
pub fn table_lines(devices: &[AttentioDevice]) -> (lines: Vec<String>)
    ensures
        strings_view(lines@) == table_spec(devices@),
{
    let n = devices.len();
    let count = dec_string(n as u64);
    let count_len = chars_of(count.as_str()).len();
    let index_width = if count_len > 1 {
        count_len
    } else {
        1
    };
    let mut w: Vec<usize> = Vec::new();
    w.push(index_width);
    w.push(column_width(devices, 1, 11));
    w.push(column_width(devices, 2, 11));
    w.push(column_width(devices, 3, 6));
    w.push(column_width(devices, 4, 6));
    proof {
        let ds = devices@;
        let one = seq![dec_spec(ds.len()).len()];
        assert(one.drop_last() =~= Seq::<nat>::empty());
        assert(one.last() == dec_spec(ds.len()).len());
        assert(count@ == dec_spec(ds.len()));
        assert(count_len == dec_spec(ds.len()).len());
        assert(max_over(Seq::<nat>::empty(), 1) == 1);
        assert(max_over(one.drop_last(), 1) == 1);
        assert(max_over(one, 1) == index_width);
        assert(w@.map_values(|x: usize| x as nat) =~= widths(devices@));
    }
    let mut lines: Vec<String> = Vec::new();
    lines.push(row_string("#", "DEVICE NAME", "DEVICE TYPE", "STATUS", "SERIAL", &w));
    let r0 = repeat_string('-', w[0]);
    let r1 = repeat_string('-', w[1]);
    let r2 = repeat_string('-', w[2]);
    let r3 = repeat_string('-', w[3]);
    let r4 = repeat_string('-', w[4]);
    lines.push(row_string(r0.as_str(), r1.as_str(), r2.as_str(), r3.as_str(), r4.as_str(), &w));
    let mut indent = repeat_string(' ', w[0]);
    indent.append("  ");
    proof {
        reveal_strlit("  ");
        assert(indent@ =~= repeat_char(' ', (w@[0] + 2) as nat));
    }
    let mut i: usize = 0;
    while i < n
        invariant
            n == devices@.len(),
            i <= n,
            w@.len() == 5,
            w@.map_values(|x: usize| x as nat) == widths(devices@),
            indent@ == repeat_char(' ', widths(devices@)[0] + 2),
            strings_view(lines@) == seq![
                row(seq!["#"@, "DEVICE NAME"@, "DEVICE TYPE"@, "STATUS"@, "SERIAL"@], widths(devices@)),
                row(
                    seq![
                        repeat_char('-', widths(devices@)[0]),
                        repeat_char('-', widths(devices@)[1]),
                        repeat_char('-', widths(devices@)[2]),
                        repeat_char('-', widths(devices@)[3]),
                        repeat_char('-', widths(devices@)[4]),
                    ],
                    widths(devices@),
                ),
            ] + all_device_lines(devices@, i as int),
        decreases n - i,
    {
        let d = &devices[i];
        let idx = dec_string((i + 1) as u64);
        let status = format_status(d);
        let first = row_string(
            idx.as_str(),
            opt_or_dash(&d.product),
            opt_or_dash(&d.device_type),
            status.as_str(),
            d.serial.as_str(),
            &w,
        );
        let mut second = indent.clone();
        second.append("Ports: ");
        second.append(format_ports(d).as_str());
        second.append("   USB: ");
        second.append(opt_or_dash(&d.usb_location));
        let ghost before = strings_view(lines@);
        lines.push(first);
        lines.push(second);
        if i + 1 < n {
            lines.push(String::new());
        }
        proof {
            assert(all_device_lines(devices@, i + 1) == all_device_lines(devices@, i as int)
                + device_lines(devices@, i as int));
            assert(strings_view(lines@) =~= before + device_lines(devices@, i as int));
        }
        i = i + 1;
    }
    lines.push(String::new());
    let mut last = count.clone();
    last.append(" device(s) found.");
    lines.push(last);
    proof {
        assert(strings_view(lines@) =~= table_spec(devices@));
    }
    lines
}

} // verus!
