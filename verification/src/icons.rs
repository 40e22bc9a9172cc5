//! Where and in which colour the overview page's icons are drawn.

use vstd::prelude::*;
use crate::text::{has_prefix, starts_with};
use crate::ui::{level_tint, overview_rows, row_top, temp_level, temp_row_tint, Level};

verus! {

/// Height of one character row in pixels (the terminal font's height).
pub const CHAR_H: i32 = 10;

/// Height of the icons in pixels.
pub const ICON_H: i32 = 18;

/// A colour of the panel, in 5-6-5 bit components.
#[derive(Clone, Copy, Debug, PartialEq, Eq, Structural)]
pub struct PanelColor {
    pub r: u8,
    pub g: u8,
    pub b: u8,
}

/// Full white.
pub open spec fn white() -> PanelColor {
    PanelColor { r: 31, g: 63, b: 31 }
}

/// The gray of the secondary icons.
pub open spec fn gray() -> PanelColor {
    PanelColor { r: 15, g: 30, b: 15 }
}

/// The icon that shows the kind of network interface.
#[derive(Clone, Copy, Debug, PartialEq, Eq, Structural)]
pub enum NetIcon {
    Wifi,
    Ethernet,
    Network,
}

/// Wireless interfaces (`wlan…`) get the Wi-Fi icon, wired ones (`eth…`)
/// the Ethernet icon, any other the generic network icon.
pub open spec fn net_icon_for(iface: Seq<char>) -> NetIcon {
    if has_prefix(iface, seq!['w', 'l', 'a', 'n']) {
        NetIcon::Wifi
    } else if has_prefix(iface, seq!['e', 't', 'h']) {
        NetIcon::Ethernet
    } else {
        NetIcon::Network
    }
}

/// The panel colour of a severity level: red, amber, green.
pub open spec fn level_panel(l: Level) -> PanelColor {
    match l {
        Level::Critical => PanelColor { r: 26, g: 22, b: 10 },
        Level::Warning => PanelColor { r: 26, g: 42, b: 8 },
        Level::Normal => PanelColor { r: 12, g: 46, b: 12 },
    }
}

/// The network icon follows the interface name's first letters: Wi-Fi for
/// names starting "wlan", Ethernet for names starting "eth", and the generic
/// icon for every other name.
pub proof fn lemma_net_icon_by_name(n: Seq<char>)
    ensures
        (n.len() >= 4 && n[0] == 'w' && n[1] == 'l' && n[2] == 'a' && n[3] == 'n') ==> net_icon_for(n)
            == NetIcon::Wifi,
        (n.len() >= 3 && n[0] == 'e' && n[1] == 't' && n[2] == 'h') ==> net_icon_for(n)
            == NetIcon::Ethernet,
        !(n.len() >= 4 && n[0] == 'w' && n[1] == 'l' && n[2] == 'a' && n[3] == 'n') && !(n.len() >= 3
            && n[0] == 'e' && n[1] == 't' && n[2] == 'h') ==> net_icon_for(n) == NetIcon::Network,
{
    if n.len() >= 4 && n[0] == 'w' && n[1] == 'l' && n[2] == 'a' && n[3] == 'n' {
        assert(n.subrange(0, 4) =~= seq!['w', 'l', 'a', 'n']);
    }
    if n.len() >= 3 && n[0] == 'e' && n[1] == 't' && n[2] == 'h' {
        assert(n.subrange(0, 3) =~= seq!['e', 't', 'h']);
    }
    if has_prefix(n, seq!['w', 'l', 'a', 'n']) {
        let p = n.subrange(0, 4);
        assert(p[0] == n[0] && p[1] == n[1] && p[2] == n[2] && p[3] == n[3]);
    }
    if has_prefix(n, seq!['e', 't', 'h']) {
        let p = n.subrange(0, 3);
        assert(p[0] == n[0] && p[1] == n[1] && p[2] == n[2]);
    }
}

/// The thermometer's colour: by the temperature's level, in panel colours;
/// gray when there is no reading.
pub open spec fn thermo_color_for(temp: Option<i32>) -> PanelColor {
    match temp {
        Some(m) => level_panel(temp_level(m)),
        None => gray(),
    }
}

/// The thermometer is coloured like the temperature text: both follow the
/// same level of the same reading.
pub proof fn lemma_thermometer_matches_text(m: i32)
    ensures
        temp_row_tint(Some(m)) == level_tint(temp_level(m)),
        thermo_color_for(Some(m)) == level_panel(temp_level(m)),
{
}

/// Top edge of the icon in detail row `k` (0 to 3): the detail rows start
/// below seven single-height rows and are two character rows high; the
/// icon is centred in its row.
pub open spec fn icon_y(k: int) -> int {
    7 * CHAR_H + k * (2 * CHAR_H) + (2 * CHAR_H - ICON_H) / 2
}

/// Each icon sits in its detail row of the overview page (rows 7 to 10),
/// centred vertically: its top edge is the top of that row, in pixels, plus
/// half of the room the icon leaves in it; that is `10 * (7 + 2k) + 1`.
pub proof fn lemma_icons_centred_in_detail_rows(k: int)
    requires
        0 <= k < 4,
    ensures
        icon_y(k) == row_top(overview_rows(), 7 + k) * CHAR_H + (overview_rows()[7 + k] * CHAR_H
            - ICON_H) / 2,
        icon_y(k) == 10 * (7 + 2 * k) + 1,
{
    reveal_with_fuel(row_top, 12);
    let h = overview_rows();
    assert(row_top(h, 7) == 7);
    assert(row_top(h, 8) == 9);
    assert(row_top(h, 9) == 11);
    assert(row_top(h, 10) == 13);
}

/// One icon to draw: which slot, colour and top edge.
pub struct IconPlan {
    pub net: NetIcon,
    pub net_color: PanelColor,
    pub net_y: i32,
    pub thermo_color: PanelColor,
    pub thermo_y: i32,
    pub clock_color: PanelColor,
    pub clock_y: i32,
    pub server_color: PanelColor,
    pub server_y: i32,
}

/// Decides the icons of the overview page for interface `iface` and
/// temperature `temp` (thousandths of a degree Celsius): the network icon
/// in white, the thermometer coloured by temperature, the clock and the
/// server in gray, in detail rows 0 to 3, all at the left edge.
pub fn plan_icons(iface: &str, temp: Option<i32>) -> (p: IconPlan)
    ensures
        p.net == net_icon_for(iface@),
        p.net_color == white(),
        p.net_y == icon_y(0),
        p.thermo_color == thermo_color_for(temp),
        p.thermo_y == icon_y(1),
        p.clock_color == gray(),
        p.clock_y == icon_y(2),
        p.server_color == gray(),
        p.server_y == icon_y(3),
{
    proof {
        reveal_strlit("wlan");
        reveal_strlit("eth");
        assert("wlan"@ =~= seq!['w', 'l', 'a', 'n']);
        assert("eth"@ =~= seq!['e', 't', 'h']);
    }
    let base_y: i32 = 7 * CHAR_H;
    let row_h: i32 = 2 * CHAR_H;
    let offset: i32 = (row_h - ICON_H) / 2;
    let white = PanelColor { r: 31, g: 63, b: 31 };
    let gray = PanelColor { r: 15, g: 30, b: 15 };
    let net = if starts_with(iface, "wlan") {
        NetIcon::Wifi
    } else if starts_with(iface, "eth") {
        NetIcon::Ethernet
    } else {
        NetIcon::Network
    };
    let thermo_color = match temp {
        Some(t) => {
            if t >= 70000 {
                PanelColor { r: 26, g: 22, b: 10 }
            } else if t >= 55000 {
                PanelColor { r: 26, g: 42, b: 8 }
            } else {
                PanelColor { r: 12, g: 46, b: 12 }
            }
        },
        None => gray,
    };
    IconPlan {
        net,
        net_color: white,
        net_y: base_y + offset,
        thermo_color,
        thermo_y: base_y + row_h + offset,
        clock_color: gray,
        clock_y: base_y + 2 * row_h + offset,
        server_color: gray,
        server_y: base_y + 3 * row_h + offset,
    }
}

} // verus!
