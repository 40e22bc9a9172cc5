use pipulse::icons::{CHAR_H, ICON_H};
use pipulse::text::div_round_half_even;
use pipulse::ui::{network_row_heights, overview_row_heights, GAUGE_LABEL_WIDTH};
use std::collections::VecDeque;

use pipulse::icons::{plan_icons, NetIcon, PanelColor};
use pipulse::ui::{
    divider, fmt_rate, fmt_temp, gauge_label, network, overview, page_header, screen, temp_color,
    traffic_color, AppState, Page, Screen, Tint,
};

const RED: Tint = Tint::Rgb(210, 90, 80);
const AMBER: Tint = Tint::Rgb(210, 170, 70);
const GREEN: Tint = Tint::Rgb(100, 185, 100);

fn sample_state(page: Page) -> AppState {
    AppState {
        ip: "192.168.1.42".to_string(),
        iface: "wlan0".to_string(),
        hostname: "hostname".to_string(),
        cpu_pct: 42,
        mem_pct: 61,
        disk_pct: 28,
        temp: Some(47_300),
        uptime: "2d 4h 12m".to_string(),
        load: "0.45 0.38 0.31".to_string(),
        page,
        rx_history: VecDeque::from(vec![10, 2_000, 1_500_000]),
        tx_history: VecDeque::new(),
    }
}

#[test]
fn page_next_and_prev_wrap() {
    assert_eq!(Page::Overview.next(), Page::Network);
    assert_eq!(Page::Network.next(), Page::Overview);
    assert_eq!(Page::Overview.prev(), Page::Network);
    assert_eq!(Page::Network.prev(), Page::Overview);
    assert_eq!(Page::default(), Page::Overview);
}

#[test]
fn page_index_and_count() {
    assert_eq!(Page::Overview.index(), 1);
    assert_eq!(Page::Network.index(), 2);
    assert_eq!(Page::COUNT, 2);
}

#[test]
fn next_prev_inverse_on_every_page() {
    for p in [Page::Overview, Page::Network] {
        assert_eq!(p.next().prev(), p);
        assert_eq!(p.prev().next(), p);
        assert_eq!(p.next().next(), p);
    }
}

#[test]
fn gauge_thresholds_of_the_readme() {
    // CPU 50/80
    assert_eq!(traffic_color(49, 50, 80), GREEN);
    assert_eq!(traffic_color(50, 50, 80), AMBER);
    assert_eq!(traffic_color(79, 50, 80), AMBER);
    assert_eq!(traffic_color(80, 50, 80), RED);
    // Mem 60/85
    assert_eq!(traffic_color(59, 60, 85), GREEN);
    assert_eq!(traffic_color(60, 60, 85), AMBER);
    assert_eq!(traffic_color(85, 60, 85), RED);
    // Disk 70/90
    assert_eq!(traffic_color(69, 70, 90), GREEN);
    assert_eq!(traffic_color(70, 70, 90), AMBER);
    assert_eq!(traffic_color(100, 70, 90), RED);
}

#[test]
fn traffic_color_is_monotone() {
    let rank = |t: Tint| if t == GREEN { 0 } else if t == AMBER { 1 } else { 2 };
    let mut last = 0;
    for pct in 0..=100u8 {
        let r = rank(traffic_color(pct, 50, 80));
        assert!(r >= last);
        last = r;
    }
}

#[test]
fn temperature_colours() {
    assert_eq!(temp_color(54_999), GREEN);
    assert_eq!(temp_color(55_000), AMBER);
    assert_eq!(temp_color(69_999), AMBER);
    assert_eq!(temp_color(70_000), RED);
    assert_eq!(temp_color(-10_000), GREEN);
}

#[test]
fn rates_in_each_unit() {
    assert_eq!(fmt_rate(0), "0 B/s");
    assert_eq!(fmt_rate(999), "999 B/s");
    assert_eq!(fmt_rate(1_000), "1 KB/s");
    assert_eq!(fmt_rate(12_345), "12 KB/s");
    assert_eq!(fmt_rate(12_678), "13 KB/s");
    assert_eq!(fmt_rate(1_000_000), "1.0 MB/s");
    assert_eq!(fmt_rate(12_345_678), "12.3 MB/s");
    assert_eq!(fmt_rate(1_560_000), "1.6 MB/s");
}

#[test]
fn rate_ties_go_to_even() {
    assert_eq!(fmt_rate(1_500), "2 KB/s");
    assert_eq!(fmt_rate(2_500), "2 KB/s");
    assert_eq!(fmt_rate(999_500), "1000 KB/s");
    assert_eq!(fmt_rate(1_250_000), "1.2 MB/s");
    assert_eq!(fmt_rate(1_750_000), "1.8 MB/s");
}

#[test]
fn rate_of_the_largest_counter() {
    assert_eq!(fmt_rate(u64::MAX), "18446744073709.6 MB/s");
}

#[test]
fn gauge_labels() {
    assert_eq!(gauge_label("CPU", 42), "CPU  42%");
    assert_eq!(gauge_label("Mem", 100), "Mem 100%");
    assert_eq!(gauge_label("Dsk", 0), "Dsk   0%");
    assert_eq!(gauge_label("X", 5), "X     5%");
    assert_eq!(gauge_label("Long", 7), "Long   7%");
}

#[test]
fn temperature_text() {
    assert_eq!(fmt_temp(47_312), "47.3°C");
    assert_eq!(fmt_temp(47_360), "47.4°C");
    assert_eq!(fmt_temp(47_250), "47.2°C");
    assert_eq!(fmt_temp(0), "0.0°C");
    assert_eq!(fmt_temp(-500), "-0.5°C");
    assert_eq!(fmt_temp(-40), "-0.0°C");
}

#[test]
fn header_fills_the_width() {
    let h = page_header("pi", Page::Overview, 20);
    assert_eq!(h.len(), 4);
    assert_eq!(h[0].text, "─ ");
    assert_eq!(h[0].tint, Tint::DarkGray);
    assert_eq!(h[1].text, "pi");
    assert_eq!(h[1].tint, Tint::Cyan);
    // 20 - (2 + 2 + 3 + 3) = 10 extra dashes
    assert_eq!(h[2].text, format!(" {}─ ", "─".repeat(10)));
    assert_eq!(h[2].tint, Tint::DarkGray);
    assert_eq!(h[3].text, "1/2");
    assert_eq!(h[3].tint, Tint::White);
    let total: usize = h.iter().map(|s| s.text.chars().count()).sum();
    assert_eq!(total, 20);
}

#[test]
fn header_too_narrow_has_no_extra_dashes() {
    let h = page_header("a-very-long-hostname", Page::Network, 10);
    assert_eq!(h[2].text, " ─ ");
    assert_eq!(h[3].text, "2/2");
}

#[test]
fn header_counts_title_bytes() {
    // "é" is one character but two bytes: the fill counts bytes.
    let h = page_header("é", Page::Overview, 20);
    assert_eq!(h[2].text, format!(" {}─ ", "─".repeat(10)));
}

#[test]
fn divider_spans_the_width() {
    let d = divider(5);
    assert_eq!(d.text, "─────");
    assert_eq!(d.tint, Tint::DarkGray);
}

#[test]
fn overview_page_rows() {
    let st = sample_state(Page::Overview);
    let v = overview(&st, 32);
    assert_eq!(v.header[1].text, "hostname");
    assert_eq!(v.cpu.label, "CPU  42%");
    assert_eq!(v.cpu.tint, GREEN);
    assert_eq!(v.cpu.percent, 42);
    assert_eq!(v.mem.label, "Mem  61%");
    assert_eq!(v.mem.tint, AMBER);
    assert_eq!(v.disk.label, "Dsk  28%");
    assert_eq!(v.disk.tint, GREEN);
    assert_eq!(v.divider.text.chars().count(), 32);
    assert_eq!(v.ip.text, "    192.168.1.42");
    assert_eq!(v.ip.tint, Tint::White);
    assert_eq!(v.temp.text, "    47.3°C");
    assert_eq!(v.temp.tint, GREEN);
    assert_eq!(v.uptime.text, "    2d 4h 12m");
    assert_eq!(v.uptime.tint, Tint::Gray);
    assert_eq!(v.load.text, "    0.45 0.38 0.31");
    assert_eq!(v.load.tint, Tint::Gray);
}

#[test]
fn overview_without_temperature() {
    let mut st = sample_state(Page::Overview);
    st.temp = None;
    let v = overview(&st, 32);
    assert_eq!(v.temp.text, "    --");
    assert_eq!(v.temp.tint, Tint::Gray);
}

#[test]
fn network_page_rows() {
    let st = sample_state(Page::Network);
    let v = network(&st, 32);
    assert_eq!(v.header[1].text, "wlan0 192.168.1.42");
    assert_eq!(v.header[3].text, "2/2");
    assert_eq!(v.rx_label.text, "Rx  1.5 MB/s");
    assert_eq!(v.rx_label.tint, Tint::Green);
    assert_eq!(v.rx_data, vec![10, 2_000, 1_500_000]);
    assert_eq!(v.tx_label.text, "Tx  0 B/s");
    assert_eq!(v.tx_label.tint, Tint::Cyan);
    assert!(v.tx_data.is_empty());
}

#[test]
fn screen_follows_the_page() {
    assert!(matches!(screen(&sample_state(Page::Overview), 32), Screen::Overview(_)));
    assert!(matches!(screen(&sample_state(Page::Network), 32), Screen::Network(_)));
}

#[test]
fn icon_rows_and_colours() {
    let p = plan_icons("wlan0", Some(47_300));
    assert_eq!(p.net, NetIcon::Wifi);
    assert_eq!(p.net_color, PanelColor { r: 31, g: 63, b: 31 });
    assert_eq!((p.net_y, p.thermo_y, p.clock_y, p.server_y), (71, 91, 111, 131));
    assert_eq!(p.thermo_color, PanelColor { r: 12, g: 46, b: 12 });
    assert_eq!(p.clock_color, PanelColor { r: 15, g: 30, b: 15 });
    assert_eq!(p.server_color, PanelColor { r: 15, g: 30, b: 15 });
}

#[test]
fn icon_kinds_and_thermometer() {
    assert_eq!(plan_icons("eth0", None).net, NetIcon::Ethernet);
    assert_eq!(plan_icons("usb0", None).net, NetIcon::Network);
    assert_eq!(plan_icons("", None).net, NetIcon::Network);
    assert_eq!(plan_icons("eth0", None).thermo_color, PanelColor { r: 15, g: 30, b: 15 });
    assert_eq!(plan_icons("eth0", Some(60_000)).thermo_color, PanelColor { r: 26, g: 42, b: 8 });
    assert_eq!(plan_icons("eth0", Some(75_000)).thermo_color, PanelColor { r: 26, g: 22, b: 10 });
}

#[test]
fn temperature_colour_is_monotone() {
    let rank = |t: Tint| if t == GREEN { 0 } else if t == AMBER { 1 } else { 2 };
    let mut last = 0;
    for m in (-20_000..=90_000).step_by(250) {
        let r = rank(temp_color(m));
        assert!(r >= last);
        last = r;
    }
}

#[test]
fn thermometer_follows_temperature_text() {
    for (m, text, panel) in [
        (40_000, GREEN, PanelColor { r: 12, g: 46, b: 12 }),
        (55_000, AMBER, PanelColor { r: 26, g: 42, b: 8 }),
        (70_000, RED, PanelColor { r: 26, g: 22, b: 10 }),
    ] {
        let mut st = sample_state(Page::Overview);
        st.temp = Some(m);
        assert_eq!(overview(&st, 32).temp.tint, text);
        assert_eq!(plan_icons("eth0", Some(m)).thermo_color, panel);
    }
}

#[test]
fn page_row_heights() {
    assert_eq!(overview_row_heights(), vec![1, 1, 1, 1, 1, 1, 1, 2, 2, 2, 2]);
    assert_eq!(network_row_heights(), vec![1, 1, 1, 3, 1, 3]);
    assert_eq!(GAUGE_LABEL_WIDTH, 9);
}

#[test]
fn icons_sit_centred_in_detail_rows() {
    let h = overview_row_heights();
    let p = plan_icons("eth0", None);
    let ys = [p.net_y, p.thermo_y, p.clock_y, p.server_y];
    for k in 0..4usize {
        let top: i32 = h[..7 + k].iter().map(|x| *x as i32).sum::<i32>() * CHAR_H;
        let row = h[7 + k] as i32 * CHAR_H;
        assert_eq!(ys[k], top + (row - ICON_H) / 2);
        assert_eq!(ys[k], 10 * (7 + 2 * k as i32) + 1);
    }
}

#[test]
fn rounding_by_one_is_the_identity() {
    assert_eq!(div_round_half_even(7, 1), 7);
    assert_eq!(div_round_half_even(u64::MAX, 1), u64::MAX);
    assert_eq!(div_round_half_even(25, 10), 2);
    assert_eq!(div_round_half_even(35, 10), 4);
}
