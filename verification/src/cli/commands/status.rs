//! The device status as `attentio status` reports it.

use vstd::prelude::*;
use vstd::string::*;

use crate::protocol::client::{
    control_mode_name, control_mode_name_spec, effects_submode_name, effects_submode_name_spec,
    interface_name, interface_name_spec, standalone_mode_name, standalone_mode_name_spec,
    system_state_name, system_state_name_spec, DeviceStatus,
};
use crate::text::{dec_spec, dec_string};

verus! {

/// The configured standalone brightness (0-255) as a percentage.
pub open spec fn configured_brightness_spec(raw: u8) -> u8 {
    (raw * 100 / 255) as u8
}

/// The configured standalone brightness (0-255) scaled to percent.
pub fn configured_brightness_pct(raw: u8) -> (p: u8)
    ensures
        p == configured_brightness_spec(raw),
        p <= 100,
{
    ((raw as u16) * 100 / 255) as u8
}

/// Standalone mode with an animated, dynamic color (Blinking, Pulsation,
/// Effects), whose instantaneous RGB means little.
pub open spec fn is_animated(s: DeviceStatus) -> bool {
    s.control_mode == 0 && 2 <= s.standalone_mode <= 4
}

/// The lines `attentio status` prints for a status.
pub open spec fn status_lines_spec(s: DeviceStatus) -> Seq<Seq<char>> {
    let state = seq!["  System state:      "@ + system_state_name_spec(s.system_state)];
    let color = if is_animated(s) {
        seq![
            "  Color (RGB):       (dynamic)"@,
            "  Brightness:        "@ + dec_spec(configured_brightness_spec(s.standalone_brightness_raw) as nat) + "%"@,
        ]
    } else {
        seq![
            "  Color (RGB):       ("@ + dec_spec(s.current_r as nat) + ", "@ + dec_spec(
                s.current_g as nat,
            ) + ", "@ + dec_spec(s.current_b as nat) + ")"@,
            "  Brightness:        "@ + dec_spec(s.brightness as nat) + "%"@,
        ]
    };
    let mode = seq!["  Control mode:      "@ + control_mode_name_spec(s.control_mode)];
    let detail = if s.control_mode == 0 {
        if s.standalone_mode == 4 {
            seq![
                "  Standalone mode:   "@ + standalone_mode_name_spec(s.standalone_mode),
                "  Active effect:     "@ + effects_submode_name_spec(s.effects_submode),
            ]
        } else {
            seq!["  Standalone mode:   "@ + standalone_mode_name_spec(s.standalone_mode)]
        }
    } else {
        seq![
            "  Active controller: "@ + interface_name_spec(s.active_controller),
            "  Session ID:        "@ + dec_spec(s.session_id as nat),
        ]
    };
    state + color + mode + detail
}

/// In standalone mode with an animated pattern (Blinking, Pulsation or
/// Effects) the report shows no instantaneous color and gives the configured
/// standalone brightness (0-255 scaled to percent); in every other mode it
/// shows the current RGB color and the current brightness. The report opens
/// with the system state and names the control mode on its fourth line.
pub proof fn lemma_status_color_lines(s: DeviceStatus)
    ensures
        status_lines_spec(s).len() >= 5,
        status_lines_spec(s)[0] == "  System state:      "@ + system_state_name_spec(s.system_state),
        status_lines_spec(s)[3] == "  Control mode:      "@ + control_mode_name_spec(s.control_mode),
        (s.control_mode == 0 && (s.standalone_mode == 2 || s.standalone_mode == 3
            || s.standalone_mode == 4)) ==> {
            &&& status_lines_spec(s)[1] == "  Color (RGB):       (dynamic)"@
            &&& status_lines_spec(s)[2] == "  Brightness:        "@ + dec_spec(
                ((s.standalone_brightness_raw as int) * 100 / 255) as nat,
            ) + "%"@
        },
        !(s.control_mode == 0 && (s.standalone_mode == 2 || s.standalone_mode == 3
            || s.standalone_mode == 4)) ==> {
            &&& status_lines_spec(s)[1] == "  Color (RGB):       ("@ + dec_spec(s.current_r as nat)
                + ", "@ + dec_spec(s.current_g as nat) + ", "@ + dec_spec(s.current_b as nat)
                + ")"@
            &&& status_lines_spec(s)[2] == "  Brightness:        "@ + dec_spec(s.brightness as nat)
                + "%"@
        },
{
    let raw = s.standalone_brightness_raw;
    assert((raw as int) * 100 / 255 <= 100) by (nonlinear_arith)
        requires
            raw <= 255,
    ;
    assert(configured_brightness_spec(raw) as nat == ((raw as int) * 100 / 255) as nat);
}

fn line2(a: &str, b: &str) -> (r: String)
    ensures
        r@ == a@ + b@,
{
    let mut r = a.to_owned();
    r.append(b);
    r
}

/// The lines `attentio status` prints for a status.
pub fn status_lines(s: &DeviceStatus) -> (lines: Vec<String>)
    ensures
        lines@.map_values(|l: String| l@) == status_lines_spec(*s),
{
    let mut lines: Vec<String> = Vec::new();
    lines.push(line2("  System state:      ", system_state_name(s.system_state)));
    let animated = s.control_mode == 0 && 2 <= s.standalone_mode && s.standalone_mode <= 4;
    if animated {
        lines.push("  Color (RGB):       (dynamic)".to_owned());
        let mut b = "  Brightness:        ".to_owned();
        b.append(dec_string(configured_brightness_pct(s.standalone_brightness_raw) as u64).as_str());
        b.append("%");
        lines.push(b);
    } else {
        let mut c = "  Color (RGB):       (".to_owned();
        c.append(dec_string(s.current_r as u64).as_str());
        c.append(", ");
        c.append(dec_string(s.current_g as u64).as_str());
        c.append(", ");
        c.append(dec_string(s.current_b as u64).as_str());
        c.append(")");
        lines.push(c);
        let mut b = "  Brightness:        ".to_owned();
        b.append(dec_string(s.brightness as u64).as_str());
        b.append("%");
        lines.push(b);
    }
    lines.push(line2("  Control mode:      ", control_mode_name(s.control_mode)));
    if s.control_mode == 0 {
        lines.push(line2("  Standalone mode:   ", standalone_mode_name(s.standalone_mode)));
        if s.standalone_mode == 4 {
            lines.push(line2("  Active effect:     ", effects_submode_name(s.effects_submode)));
        }
    } else {
        lines.push(line2("  Active controller: ", interface_name(s.active_controller)));
        let mut id = "  Session ID:        ".to_owned();
        id.append(dec_string(s.session_id as u64).as_str());
        lines.push(id);
    }
    proof {
        assert(lines@.map_values(|l: String| l@) =~= status_lines_spec(*s));
    }
    lines
}

} // verus!
