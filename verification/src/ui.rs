use std::collections::VecDeque;
use vstd::prelude::*;
use crate::text::{
    byte_len, decimal, digit_char, div_round_half_even, pad_left, pad_right, push_decimal, push_repeat,
    repeat_char, round_half_even, to_string,
};

verus! {

/// The pages the display cycles through.
#[derive(Clone, Copy, Debug, PartialEq, Eq, Structural)]
pub enum Page {
    Overview,
    Network,
}

/// The page that follows `p` in the cycle.
pub open spec fn spec_next(p: Page) -> Page {
    match p {
        Page::Overview => Page::Network,
        Page::Network => Page::Overview,
    }
}

/// The page that precedes `p` in the cycle.
pub open spec fn spec_prev(p: Page) -> Page {
    match p {
        Page::Overview => Page::Network,
        Page::Network => Page::Overview,
    }
}

/// One-based position of `p`, as shown in the page indicator.
pub open spec fn spec_index(p: Page) -> nat {
    match p {
        Page::Overview => 1,
        Page::Network => 2,
    }
}

impl Default for Page {
    /// The first page shown at start-up: the overview.
    fn default() -> (p: Page)
        ensures
            p == Page::Overview,
    {
        Page::Overview
    }
}

impl Page {
    /// Number of pages.
    pub const COUNT: usize = 2;

    /// Moves one page forward, wrapping after the last page.
    pub fn next(self) -> (p: Page)
        ensures
            p == spec_next(self),
    {
        match self {
            Page::Overview => Page::Network,
            Page::Network => Page::Overview,
        }
    }

    /// Moves one page back, wrapping before the first page.
    pub fn prev(self) -> (p: Page)
        ensures
            p == spec_prev(self),
    {
        match self {
            Page::Overview => Page::Network,
            Page::Network => Page::Overview,
        }
    }

    /// One-based position of the page in the cycle.
    pub fn index(self) -> (i: usize)
        ensures
            i == spec_index(self),
            1 <= i <= Page::COUNT,
    {
        match self {
            Page::Overview => 1,
            Page::Network => 2,
        }
    }
}

/// Going forward and then back, or back and then forward, returns to the
/// page one started from.
pub proof fn lemma_next_prev_inverse(p: Page)
    ensures
        spec_prev(spec_next(p)) == p,
        spec_next(spec_prev(p)) == p,
{
}

/// Going forward `Page::COUNT` times, or back `Page::COUNT` times, returns to
/// the page one started from.
pub proof fn lemma_full_cycle(p: Page)
    ensures
        spec_next(spec_next(p)) == p,
        spec_prev(spec_prev(p)) == p,
{
}

/// Each page has its own index, from 1 to `Page::COUNT`.
pub proof fn lemma_index_distinct(p: Page, q: Page)
    ensures
        1 <= spec_index(p) <= Page::COUNT,
        p != q ==> spec_index(p) != spec_index(q),
{
}

/// The colours the display uses, as the terminal renderer names them.
#[derive(Clone, Copy, Debug, PartialEq, Eq, Structural)]
pub enum Tint {
    Gray,
    DarkGray,
    White,
    Cyan,
    Green,
    Rgb(u8, u8, u8),
}

/// Severity of a reading against its thresholds.
#[derive(Clone, Copy, Debug, PartialEq, Eq, Structural)]
pub enum Level {
    Normal,
    Warning,
    Critical,
}

/// Rank of a level: higher is more severe.
pub open spec fn level_rank(l: Level) -> nat {
    match l {
        Level::Normal => 0,
        Level::Warning => 1,
        Level::Critical => 2,
    }
}

/// The colour of each severity level: green, amber, red.
pub open spec fn level_tint(l: Level) -> Tint {
    match l {
        Level::Normal => Tint::Rgb(100, 185, 100),
        Level::Warning => Tint::Rgb(210, 170, 70),
        Level::Critical => Tint::Rgb(210, 90, 80),
    }
}

/// Level of a percentage: critical from `crit` on, warning from `warn` on.
pub open spec fn traffic_level(pct: u8, warn: u8, crit: u8) -> Level {
    if pct >= crit {
        Level::Critical
    } else if pct >= warn {
        Level::Warning
    } else {
        Level::Normal
    }
}

/// Level of a temperature in thousandths of a degree Celsius:
/// critical from 70 °C on, warning from 55 °C on.
pub open spec fn temp_level(milli: i32) -> Level {
    if milli >= 70000 {
        Level::Critical
    } else if milli >= 55000 {
        Level::Warning
    } else {
        Level::Normal
    }
}

/// A higher reading never shows a less severe colour: with `warn <= crit`,
/// the level of a gauge grows with its percentage.
pub proof fn lemma_traffic_level_monotone(p1: u8, p2: u8, warn: u8, crit: u8)
    requires
        warn <= crit,
        p1 <= p2,
    ensures
        level_rank(traffic_level(p1, warn, crit)) <= level_rank(traffic_level(p2, warn, crit)),
{
}

/// A higher temperature never shows a less severe colour.
pub proof fn lemma_temp_level_monotone(m1: i32, m2: i32)
    requires
        m1 <= m2,
    ensures
        level_rank(temp_level(m1)) <= level_rank(temp_level(m2)),
{
}

/// The colour of a level.
pub fn tint_of(l: Level) -> (t: Tint)
    ensures
        t == level_tint(l),
{
    match l {
        Level::Normal => Tint::Rgb(100, 185, 100),
        Level::Warning => Tint::Rgb(210, 170, 70),
        Level::Critical => Tint::Rgb(210, 90, 80),
    }
}

/// Colour of a gauge: red at or above `crit`, amber at or above `warn`,
/// green below.
pub fn traffic_color(pct: u8, warn: u8, crit: u8) -> (t: Tint)
    ensures
        t == level_tint(traffic_level(pct, warn, crit)),
{
    if pct >= crit {
        tint_of(Level::Critical)
    } else if pct >= warn {
        tint_of(Level::Warning)
    } else {
        tint_of(Level::Normal)
    }
}

/// Colour of a temperature given in thousandths of a degree Celsius:
/// red at or above 70 °C, amber at or above 55 °C, green below.
pub fn temp_color(milli: i32) -> (t: Tint)
    ensures
        t == level_tint(temp_level(milli)),
{
    if milli >= 70000 {
        tint_of(Level::Critical)
    } else if milli >= 55000 {
        tint_of(Level::Warning)
    } else {
        tint_of(Level::Normal)
    }
}

/// The text of a transfer rate in bytes per second: megabytes with one
/// decimal from 1 000 000 on, whole kilobytes from 1 000 on, bytes below.
/// Both roundings go to the nearest value, ties to the even one.
pub open spec fn rate_text(bps: nat) -> Seq<char> {
    if bps >= 1_000_000 {
        let t = round_half_even(bps, 100_000);
        decimal(t / 10) + seq!['.', digit_char(t % 10)] + seq![' ', 'M', 'B', '/', 's']
    } else if bps >= 1000 {
        decimal(round_half_even(bps, 1000)) + seq![' ', 'K', 'B', '/', 's']
    } else {
        decimal(bps) + seq![' ', 'B', '/', 's']
    }
}

/// Rounding to the nearest multiple: the rounded quotient times `d` is
/// within half of `d` from `n`, and an exact half goes to the even quotient.
pub proof fn lemma_round_half_even_nearest(n: nat, d: nat)
    requires
        d > 0,
    ensures
        2 * n <= 2 * (round_half_even(n, d) * d) + d,
        2 * (round_half_even(n, d) * d) <= 2 * n + d,
        2 * (round_half_even(n, d) * d) == 2 * n + d || 2 * n == 2 * (round_half_even(n, d) * d)
            + d ==> round_half_even(n, d) % 2 == 0,
{
    let q = n / d;
    let r = n % d;
    assert(n == q * d + r && r < d) by (nonlinear_arith)
        requires q == n / d, r == n % d, d > 0;
    assert((q + 1) * d == q * d + d) by (nonlinear_arith);
}

/// A count of tenths written with one decimal: `t / 10`, a point, and the
/// last digit of `t`.
pub open spec fn tenths_text(t: nat) -> Seq<char> {
    decimal(t / 10) + seq!['.', digit_char(t % 10)]
}

/// The rate text is in the right unit with the nearest value: bytes below
/// 1 000, whole kilobytes (of 1 000 bytes) within half a kilobyte below
/// 1 000 000, and megabytes (of 1 000 000 bytes) with one decimal within
/// half a tenth from there on.
pub proof fn lemma_rate_text_units(bps: nat)
    ensures
        bps < 1000 ==> rate_text(bps) == decimal(bps) + seq![' ', 'B', '/', 's'],
        1000 <= bps < 1_000_000 ==> exists|k: nat|
            rate_text(bps) == decimal(k) + seq![' ', 'K', 'B', '/', 's'] && 2 * bps <= 2 * (k
                * 1000) + 1000 && 2 * (k * 1000) <= 2 * bps + 1000,
        1_000_000 <= bps ==> exists|t: nat|
            rate_text(bps) == #[trigger] tenths_text(t) + seq![
                ' ',
                'M',
                'B',
                '/',
                's',
            ] && 2 * bps <= 2 * (t * 100_000) + 100_000 && 2 * (t * 100_000) <= 2 * bps + 100_000,
{
    if 1000 <= bps < 1_000_000 {
        lemma_round_half_even_nearest(bps, 1000);
        let k = round_half_even(bps, 1000);
        assert(rate_text(bps) == decimal(k) + seq![' ', 'K', 'B', '/', 's']);
    }
    if 1_000_000 <= bps {
        lemma_round_half_even_nearest(bps, 100_000);
        let t = round_half_even(bps, 100_000);
        assert(rate_text(bps) == tenths_text(t) + seq![
            ' ',
            'M',
            'B',
            '/',
            's',
        ]);
    }
}

/// Formats a transfer rate in bytes per second for display
/// ("1.5 MB/s", "12 KB/s", "512 B/s").
pub fn fmt_rate(bps: u64) -> (s: String)
    ensures
        s@ == rate_text(bps as nat),
{
    let mut s = String::new();
    if bps >= 1_000_000 {
        let t: u64 = div_round_half_even(bps, 100_000);
        push_decimal(&mut s, t / 10);
        s.push('.');
        s.push(((t % 10) as u8 + 48) as char);
        s.append(" MB/s");
        proof {
            reveal_strlit(" MB/s");
        }
    } else if bps >= 1000 {
        let k: u64 = div_round_half_even(bps, 1000);
        push_decimal(&mut s, k);
        s.append(" KB/s");
        proof {
            reveal_strlit(" KB/s");
        }
    } else {
        push_decimal(&mut s, bps);
        s.append(" B/s");
        proof {
            reveal_strlit(" B/s");
        }
    }
    proof {
        assert(s@ =~= rate_text(bps as nat));
    }
    s
}

/// The text of a gauge row's label: the name padded to three characters,
/// a space, the percentage right-aligned in three characters, and `%`
/// (the `"{:<3} {:>3}%"` layout).
pub open spec fn gauge_text(label: Seq<char>, pct: u8) -> Seq<char> {
    pad_right(label, 3) + seq![' '] + pad_left(decimal(pct as nat), 3) + seq!['%']
}

/// A number below 1 000 has at most three digits.
pub proof fn lemma_decimal_short(n: nat)
    requires
        n < 1000,
    ensures
        1 <= decimal(n).len() <= 3,
        n < 10 ==> decimal(n).len() == 1,
        10 <= n < 100 ==> decimal(n).len() == 2,
        100 <= n ==> decimal(n).len() == 3,
{
    if n >= 10 {
        assert(decimal(n / 10).len() >= 1);
        if n >= 100 {
            assert(decimal(n / 100).len() == 1);
            assert(decimal(n / 10) == decimal(n / 10 / 10).push(digit_char(n / 10 % 10)));
        }
    }
}

/// A gauge label for a three-letter name is eight characters: the name, a
/// space, the percentage right-aligned in three columns, and `%`.
pub proof fn lemma_gauge_text_layout(name: Seq<char>, pct: u8)
    requires
        name.len() == 3,
    ensures
        decimal(pct as nat).len() <= 3,
        gauge_text(name, pct) == name + seq![' '] + repeat_char(
            ' ',
            (3 - decimal(pct as nat).len()) as nat,
        ) + decimal(pct as nat) + seq!['%'],
        gauge_text(name, pct).len() == 8,
{
    lemma_decimal_short(pct as nat);
    if decimal(pct as nat).len() == 3 {
        assert(repeat_char(' ', 0) + decimal(pct as nat) =~= decimal(pct as nat));
    }
    assert(name + repeat_char(' ', 0) =~= name);
}

/// Formats the label of a gauge row, such as `"CPU  42%"`.
pub fn gauge_label(label: &str, pct: u8) -> (s: String)
    ensures
        s@ == gauge_text(label@, pct),
{
    let mut s = to_string(label);
    let n: usize = label.unicode_len();
    if n < 3 {
        push_repeat(&mut s, ' ', 3 - n);
    }
    s.push(' ');
    let mut digits = String::new();
    push_decimal(&mut digits, pct as u64);
    let dn: usize = digits.as_str().unicode_len();
    if dn < 3 {
        push_repeat(&mut s, ' ', 3 - dn);
    }
    s.append(digits.as_str());
    s.push('%');
    proof {
        assert(s@ =~= gauge_text(label@, pct));
    }
    s
}

/// A piece of text drawn in one colour.
pub struct Styled {
    pub text: String,
    pub tint: Tint,
}

impl View for Styled {
    type V = (Seq<char>, Tint);

    open spec fn view(&self) -> (Seq<char>, Tint) {
        (self.text@, self.tint)
    }
}

/// The views of a sequence of styled pieces.
pub open spec fn styled_views(v: Seq<Styled>) -> Seq<(Seq<char>, Tint)> {
    v.map_values(|x: Styled| x@)
}

/// Builds a styled piece.
pub fn styled(text: String, tint: Tint) -> (s: Styled)
    ensures
        s@ == (text@, tint),
{
    Styled { text, tint }
}

/// The page indicator, such as `"1/2"`.
pub open spec fn indicator_text(p: Page) -> Seq<char> {
    decimal(spec_index(p)) + seq!['/'] + decimal(Page::COUNT as nat)
}

/// Number of dashes that fill a header line of `width` columns, for a title
/// of `title_bytes` bytes: the width less the fixed parts (`"─ "`, the
/// title, `" ─ "` and the indicator), or none when they do not fit.
pub open spec fn header_fill(title_bytes: nat, indicator_len: nat, width: nat) -> nat {
    let fixed = 2 + title_bytes + 3 + indicator_len;
    if width > fixed {
        (width - fixed) as nat
    } else {
        0
    }
}

/// The pieces of a page header `"─ <title> ─...─ N/M"` for a title whose
/// characters are `title` and whose UTF-8 encoding has `title_bytes` bytes.
pub open spec fn header_model(title: Seq<char>, title_bytes: nat, page: Page, width: nat) -> Seq<
    (Seq<char>, Tint),
> {
    let ind = indicator_text(page);
    let fill = header_fill(title_bytes, ind.len(), width);
    seq![
        (seq!['─', ' '], Tint::DarkGray),
        (title, Tint::Cyan),
        (seq![' '] + repeat_char('─', fill) + seq!['─', ' '], Tint::DarkGray),
        (ind, Tint::White),
    ]
}

/// Total number of characters of a header's pieces.
pub open spec fn header_chars(m: Seq<(Seq<char>, Tint)>) -> nat {
    m[0].0.len() + m[1].0.len() + m[2].0.len() + m[3].0.len()
}

/// For a title in ASCII whose fixed parts fit in the width, the header line
/// is exactly `width` characters long: the dashes fill the line.
pub proof fn lemma_header_fills_width(title: Seq<char>, page: Page, width: u16)
    requires
        vstd::utf8::is_ascii_chars(title),
        width >= 2 + title.len() + 3 + indicator_text(page).len(),
    ensures
        header_chars(header_model(title, byte_len(title), page, width as nat)) == width,
{
    vstd::utf8::is_ascii_chars_encode_utf8(title);
    let m = header_model(title, byte_len(title), page, width as nat);
    assert(m[2].0.len() == 1 + header_fill(byte_len(title), indicator_text(page).len(), width as nat) + 2);
}

/// Builds the header line of a page: the title in cyan between dashes,
/// and the page indicator in white at the right edge of `width` columns.
pub fn page_header(title: &str, page: Page, width: u16) -> (r: Vec<Styled>)
    ensures
        styled_views(r@) == header_model(title@, byte_len(title@), page, width as nat),
{
    let mut ind = String::new();
    push_decimal(&mut ind, page.index() as u64);
    ind.push('/');
    push_decimal(&mut ind, Page::COUNT as u64);
    let ind_len: usize = ind.as_str().unicode_len();
    proof {
        assert(ind@ =~= indicator_text(page));
        assert(ind_len <= 64);
    }
    let extra: usize = (width as usize).saturating_sub(title.len()).saturating_sub(5 + ind_len);
    let mut lead = String::new();
    lead.push('─');
    lead.push(' ');
    let mut fill = String::new();
    fill.push(' ');
    push_repeat(&mut fill, '─', extra);
    fill.push('─');
    fill.push(' ');
    let mut r: Vec<Styled> = Vec::new();
    r.push(styled(lead, Tint::DarkGray));
    r.push(styled(to_string(title), Tint::Cyan));
    r.push(styled(fill, Tint::DarkGray));
    r.push(styled(ind, Tint::White));
    proof {
        let m = header_model(title@, title.len() as nat, page, width as nat);
        assert(extra as nat == header_fill(title.len() as nat, ind@.len(), width as nat));
        assert(r@[0]@ == m[0]);
        assert(r@[1]@ == m[1]);
        assert(r@[2]@ == m[2]);
        assert(r@[3]@ == m[3]);
        assert(styled_views(r@) =~= m);
    }
    r
}

/// The text of a temperature given in thousandths of a degree Celsius:
/// degrees with one decimal (rounded to the nearest tenth, ties to the
/// even one), a minus sign for temperatures below zero, and `°C`.
pub open spec fn temp_value_text(milli: i32) -> Seq<char> {
    let mag: nat = if milli < 0 { (-milli) as nat } else { milli as nat };
    let t = round_half_even(mag, 100);
    let sign: Seq<char> = if milli < 0 { seq!['-'] } else { seq![] };
    sign + decimal(t / 10) + seq!['.', digit_char(t % 10)] + seq!['°', 'C']
}

/// The temperature text shows the reading to the nearest tenth of a
/// degree: a minus sign exactly for readings below zero, then `u.f°C` where
/// `u` and `f` are the whole and tenth parts of some `t` within half a tenth
/// (50 thousandths) of the reading's size.
pub proof fn lemma_temp_text_nearest(milli: i32)
    ensures
        exists|t: nat|
            {
                let mag: int = if milli < 0 { -milli } else { milli as int };
                &&& temp_value_text(milli) == (if milli < 0 { seq!['-'] } else { Seq::<char>::empty() })
                    + #[trigger] tenths_text(t) + seq!['°', 'C']
                &&& 2 * mag <= 2 * (t * 100) + 100
                &&& 2 * (t * 100) <= 2 * mag + 100
            },
{
    let mag: nat = if milli < 0 { (-milli) as nat } else { milli as nat };
    lemma_round_half_even_nearest(mag, 100);
    let t = round_half_even(mag, 100);
    assert(temp_value_text(milli) == (if milli < 0 { seq!['-'] } else { Seq::<char>::empty() })
        + tenths_text(t) + seq!['°', 'C']);
}

/// Four spaces: room for the icon drawn at the start of a detail row.
pub open spec fn icon_gap() -> Seq<char> {
    seq![' ', ' ', ' ', ' ']
}

/// The temperature row: the reading after the icon gap, or `--` when there
/// is none.
pub open spec fn temp_row_text(temp: Option<i32>) -> Seq<char> {
    match temp {
        Some(m) => icon_gap() + temp_value_text(m),
        None => icon_gap() + seq!['-', '-'],
    }
}

/// The colour of the temperature row: by level, or gray when there is no
/// reading.
pub open spec fn temp_row_tint(temp: Option<i32>) -> Tint {
    match temp {
        Some(m) => level_tint(temp_level(m)),
        None => Tint::Gray,
    }
}

/// Appends the icon gap to `s`.
fn push_icon_gap(s: &mut String)
    ensures
        final(s)@ == old(s)@ + icon_gap(),
{
    push_repeat(s, ' ', 4);
    proof {
        assert(repeat_char(' ', 4) =~= icon_gap());
    }
}

/// Formats a temperature given in thousandths of a degree Celsius,
/// such as `"47.3°C"`.
pub fn fmt_temp(milli: i32) -> (s: String)
    ensures
        s@ == temp_value_text(milli),
{
    let mut s = String::new();
    let mag: u64 = if milli < 0 {
        s.push('-');
        (-(milli as i64)) as u64
    } else {
        milli as u64
    };
    let t: u64 = div_round_half_even(mag, 100);
    push_decimal(&mut s, t / 10);
    s.push('.');
    s.push(((t % 10) as u8 + 48) as char);
    s.push('°');
    s.push('C');
    proof {
        assert(s@ =~= temp_value_text(milli));
    }
    s
}

/// A line of text after the icon gap.
fn gap_row(text: &str, tint: Tint) -> (r: Styled)
    ensures
        r@ == (icon_gap() + text@, tint),
{
    let mut s = String::new();
    push_icon_gap(&mut s);
    s.append(text);
    styled(s, tint)
}

/// Everything one frame shows, as the program collected it.
pub struct AppState {
    pub ip: String,
    pub iface: String,
    pub hostname: String,
    pub cpu_pct: u8,
    pub mem_pct: u8,
    pub disk_pct: u8,
    /// CPU temperature in thousandths of a degree Celsius, if known.
    pub temp: Option<i32>,
    pub uptime: String,
    pub load: String,
    pub page: Page,
    pub rx_history: VecDeque<u64>,
    pub tx_history: VecDeque<u64>,
}

/// One gauge row of the overview: its label text, colour and fill.
pub struct GaugeRow {
    pub label: String,
    pub tint: Tint,
    pub percent: u8,
}

/// A gauge row named `name` for `pct` percent with thresholds `warn` and
/// `crit`.
pub open spec fn gauge_row_ok(g: GaugeRow, name: Seq<char>, pct: u8, warn: u8, crit: u8) -> bool {
    &&& g.label@ == gauge_text(name, pct)
    &&& g.tint == level_tint(traffic_level(pct, warn, crit))
    &&& g.percent == pct
}

/// Builds a gauge row.
pub fn gauge_row(name: &str, pct: u8, warn: u8, crit: u8) -> (g: GaugeRow)
    ensures
        gauge_row_ok(g, name@, pct, warn, crit),
{
    GaugeRow { label: gauge_label(name, pct), tint: traffic_color(pct, warn, crit), percent: pct }
}

/// A horizontal rule of `width` columns.
pub open spec fn divider_text(width: nat) -> Seq<char> {
    repeat_char('─', width)
}

/// Builds the divider line, in dark gray.
pub fn divider(width: u16) -> (r: Styled)
    ensures
        r@ == (divider_text(width as nat), Tint::DarkGray),
{
    let mut s = String::new();
    push_repeat(&mut s, '─', width as usize);
    proof {
        assert(s@ =~= divider_text(width as nat));
    }
    styled(s, Tint::DarkGray)
}

/// Heights, in character rows, of the overview page's rows from the top:
/// header, CPU gauge, spacer, memory gauge, spacer, disk gauge, divider,
/// and the four detail rows (address, temperature, uptime, load), each two
/// rows high. The rest of the screen stays empty.
pub open spec fn overview_rows() -> Seq<u16> {
    seq![1, 1, 1, 1, 1, 1, 1, 2, 2, 2, 2]
}

/// Heights, in character rows, of the network page's rows from the top:
/// header, divider, received rate, its sparkline, transmitted rate, its
/// sparkline. The rest of the screen stays empty.
pub open spec fn network_rows() -> Seq<u16> {
    seq![1, 1, 1, 3, 1, 3]
}

/// Width, in columns, of a gauge row's label; the bar takes the rest.
pub const GAUGE_LABEL_WIDTH: u16 = 9;

/// The first row of row `k` when rows of heights `h` are stacked from the
/// top: the sum of the heights above it.
pub open spec fn row_top(h: Seq<u16>, k: int) -> int
    decreases k,
{
    if k <= 0 {
        0
    } else {
        row_top(h, k - 1) + h[k - 1]
    }
}

/// The heights of the overview page's rows.
pub fn overview_row_heights() -> (r: Vec<u16>)
    ensures
        r@ == overview_rows(),
{
    let r: Vec<u16> = vec![1, 1, 1, 1, 1, 1, 1, 2, 2, 2, 2];
    assert(r@ =~= overview_rows());
    r
}

/// The heights of the network page's rows.
pub fn network_row_heights() -> (r: Vec<u16>)
    ensures
        r@ == network_rows(),
{
    let r: Vec<u16> = vec![1, 1, 1, 3, 1, 3];
    assert(r@ =~= network_rows());
    r
}

/// The overview page: host header, three gauges, and the detail rows.
pub struct OverviewView {
    pub header: Vec<Styled>,
    pub cpu: GaugeRow,
    pub mem: GaugeRow,
    pub disk: GaugeRow,
    pub divider: Styled,
    pub ip: Styled,
    pub temp: Styled,
    pub uptime: Styled,
    pub load: Styled,
}

/// `v` is the overview page of `state` on a screen `width` columns wide.
pub open spec fn overview_ok(v: OverviewView, state: AppState, width: u16) -> bool {
    &&& styled_views(v.header@) == header_model(
        state.hostname@,
        byte_len(state.hostname@),
        state.page,
        width as nat,
    )
    &&& gauge_row_ok(v.cpu, seq!['C', 'P', 'U'], state.cpu_pct, 50, 80)
    &&& gauge_row_ok(v.mem, seq!['M', 'e', 'm'], state.mem_pct, 60, 85)
    &&& gauge_row_ok(v.disk, seq!['D', 's', 'k'], state.disk_pct, 70, 90)
    &&& v.divider@ == (divider_text(width as nat), Tint::DarkGray)
    &&& v.ip@ == (icon_gap() + state.ip@, Tint::White)
    &&& v.temp@ == (temp_row_text(state.temp), temp_row_tint(state.temp))
    &&& v.uptime@ == (icon_gap() + state.uptime@, Tint::Gray)
    &&& v.load@ == (icon_gap() + state.load@, Tint::Gray)
}

/// The gauges of the overview are coloured by the thresholds of the
/// display: CPU amber from 50 % and red from 80 %, memory amber from 60 %
/// and red from 85 %, disk amber from 70 % and red from 90 %; green below.
pub proof fn lemma_overview_gauge_colours(v: OverviewView, s: AppState, w: u16)
    requires
        overview_ok(v, s, w),
    ensures
        s.cpu_pct < 50 ==> v.cpu.tint == Tint::Rgb(100, 185, 100),
        50 <= s.cpu_pct < 80 ==> v.cpu.tint == Tint::Rgb(210, 170, 70),
        80 <= s.cpu_pct ==> v.cpu.tint == Tint::Rgb(210, 90, 80),
        s.mem_pct < 60 ==> v.mem.tint == Tint::Rgb(100, 185, 100),
        60 <= s.mem_pct < 85 ==> v.mem.tint == Tint::Rgb(210, 170, 70),
        85 <= s.mem_pct ==> v.mem.tint == Tint::Rgb(210, 90, 80),
        s.disk_pct < 70 ==> v.disk.tint == Tint::Rgb(100, 185, 100),
        70 <= s.disk_pct < 90 ==> v.disk.tint == Tint::Rgb(210, 170, 70),
        90 <= s.disk_pct ==> v.disk.tint == Tint::Rgb(210, 90, 80),
        v.cpu.percent == s.cpu_pct,
        v.mem.percent == s.mem_pct,
        v.disk.percent == s.disk_pct,
{
}

/// The temperature row of the overview is green below 55 °C, amber from
/// 55 °C and red from 70 °C (readings in thousandths of a degree), and gray
/// with `--` when there is no reading.
pub proof fn lemma_overview_temp_colours(v: OverviewView, s: AppState, w: u16)
    requires
        overview_ok(v, s, w),
    ensures
        s.temp matches Some(m) && m < 55000 ==> v.temp.tint == Tint::Rgb(100, 185, 100),
        s.temp matches Some(m) && 55000 <= m < 70000 ==> v.temp.tint == Tint::Rgb(210, 170, 70),
        s.temp matches Some(m) && 70000 <= m ==> v.temp.tint == Tint::Rgb(210, 90, 80),
        s.temp is None ==> v.temp.tint == Tint::Gray && v.temp.text@ == seq![
            ' ',
            ' ',
            ' ',
            ' ',
            '-',
            '-',
        ],
{
}

/// Lays out the overview page for a screen `width` columns wide. The
/// gauges turn amber and red at 50/80 % (CPU), 60/85 % (memory) and
/// 70/90 % (disk).
pub fn overview(state: &AppState, width: u16) -> (v: OverviewView)
    ensures
        overview_ok(v, *state, width),
{
    proof {
        reveal_strlit("CPU");
        reveal_strlit("Mem");
        reveal_strlit("Dsk");
        assert("CPU"@ =~= seq!['C', 'P', 'U']);
        assert("Mem"@ =~= seq!['M', 'e', 'm']);
        assert("Dsk"@ =~= seq!['D', 's', 'k']);
    }
    let header = page_header(state.hostname.as_str(), state.page, width);
    let cpu = gauge_row("CPU", state.cpu_pct, 50, 80);
    let mem = gauge_row("Mem", state.mem_pct, 60, 85);
    let disk = gauge_row("Dsk", state.disk_pct, 70, 90);
    let mut temp_text = String::new();
    push_icon_gap(&mut temp_text);
    let temp_tint = match state.temp {
        Some(m) => {
            let t = fmt_temp(m);
            temp_text.append(t.as_str());
            temp_color(m)
        },
        None => {
            temp_text.push('-');
            temp_text.push('-');
            Tint::Gray
        },
    };
    proof {
        assert(temp_text@ =~= temp_row_text(state.temp));
    }
    OverviewView {
        header,
        cpu,
        mem,
        disk,
        divider: divider(width),
        ip: gap_row(state.ip.as_str(), Tint::White),
        temp: styled(temp_text, temp_tint),
        uptime: gap_row(state.uptime.as_str(), Tint::Gray),
        load: gap_row(state.load.as_str(), Tint::Gray),
    }
}

/// The samples of a history, oldest first.
pub fn copy_samples(v: &VecDeque<u64>) -> (r: Vec<u64>)
    ensures
        r@ == v@,
{
    let mut r: Vec<u64> = Vec::new();
    let mut i: usize = 0;
    while i < v.len()
        invariant
            i <= v.len(),
            r@ == v@.subrange(0, i as int),
        decreases v.len() - i,
    {
        r.push(v[i]);
        i = i + 1;
        assert(r@ =~= v@.subrange(0, i as int));
    }
    assert(v@.subrange(0, v.len() as int) =~= v@);
    r
}

/// The newest sample of a history, or 0 when it is empty.
pub open spec fn last_or_zero(s: Seq<u64>) -> nat {
    if s.len() > 0 {
        s.last() as nat
    } else {
        0
    }
}

/// The rate row of the network page: the name, two spaces, and the newest
/// rate.
pub open spec fn rate_row_text(name: Seq<char>, history: Seq<u64>) -> Seq<char> {
    name + seq![' ', ' '] + rate_text(last_or_zero(history))
}

/// The title of the network page: interface name, a space, the address.
pub open spec fn net_title(iface: Seq<char>, ip: Seq<char>) -> Seq<char> {
    iface + seq![' '] + ip
}

/// The network page: interface header, current rates and the histories
/// that the sparklines plot.
pub struct NetworkView {
    pub header: Vec<Styled>,
    pub divider: Styled,
    pub rx_label: Styled,
    pub rx_data: Vec<u64>,
    pub tx_label: Styled,
    pub tx_data: Vec<u64>,
}

/// `v` is the network page of `state` on a screen `width` columns wide.
pub open spec fn network_ok(v: NetworkView, state: AppState, width: u16) -> bool {
    let title = net_title(state.iface@, state.ip@);
    &&& styled_views(v.header@) == header_model(title, byte_len(title), state.page, width as nat)
    &&& v.divider@ == (divider_text(width as nat), Tint::DarkGray)
    &&& v.rx_label@ == (rate_row_text(seq!['R', 'x'], state.rx_history@), Tint::Green)
    &&& v.rx_data@ == state.rx_history@
    &&& v.tx_label@ == (rate_row_text(seq!['T', 'x'], state.tx_history@), Tint::Cyan)
    &&& v.tx_data@ == state.tx_history@
}

/// The rate row for a history.
fn rate_row(name: &str, history: &VecDeque<u64>, tint: Tint) -> (r: Styled)
    ensures
        r@ == (rate_row_text(name@, history@), tint),
{
    let mut s = to_string(name);
    s.push(' ');
    s.push(' ');
    let current: u64 = if history.len() > 0 {
        history[history.len() - 1]
    } else {
        0
    };
    let rate = fmt_rate(current);
    s.append(rate.as_str());
    proof {
        assert(s@ =~= rate_row_text(name@, history@));
    }
    styled(s, tint)
}

/// Each rate row of the network page shows the newest sample of its
/// history (the last one recorded), or 0 when the history is empty, after
/// the name and two spaces; and the sparklines plot the whole histories.
pub proof fn lemma_network_rates_are_newest(v: NetworkView, s: AppState, w: u16)
    requires
        network_ok(v, s, w),
    ensures
        s.rx_history@.len() > 0 ==> v.rx_label.text@ == seq!['R', 'x', ' ', ' '] + rate_text(
            s.rx_history@[s.rx_history@.len() - 1] as nat,
        ),
        s.rx_history@.len() == 0 ==> v.rx_label.text@ == seq!['R', 'x', ' ', ' '] + rate_text(0),
        s.tx_history@.len() > 0 ==> v.tx_label.text@ == seq!['T', 'x', ' ', ' '] + rate_text(
            s.tx_history@[s.tx_history@.len() - 1] as nat,
        ),
        s.tx_history@.len() == 0 ==> v.tx_label.text@ == seq!['T', 'x', ' ', ' '] + rate_text(0),
        v.rx_data@ == s.rx_history@,
        v.tx_data@ == s.tx_history@,
{
}

/// Lays out the network page for a screen `width` columns wide.
pub fn network(state: &AppState, width: u16) -> (v: NetworkView)
    ensures
        network_ok(v, *state, width),
{
    proof {
        reveal_strlit("Rx");
        reveal_strlit("Tx");
        assert("Rx"@ =~= seq!['R', 'x']);
        assert("Tx"@ =~= seq!['T', 'x']);
    }
    let mut title = state.iface.clone();
    title.push(' ');
    title.append(state.ip.as_str());
    proof {
        assert(title@ =~= net_title(state.iface@, state.ip@));
    }
    NetworkView {
        header: page_header(title.as_str(), state.page, width),
        divider: divider(width),
        rx_label: rate_row("Rx", &state.rx_history, Tint::Green),
        rx_data: copy_samples(&state.rx_history),
        tx_label: rate_row("Tx", &state.tx_history, Tint::Cyan),
        tx_data: copy_samples(&state.tx_history),
    }
}

/// A laid-out page, ready to draw.
pub enum Screen {
    Overview(OverviewView),
    Network(NetworkView),
}

/// Lays out the page that `state` selects.
pub fn screen(state: &AppState, width: u16) -> (s: Screen)
    ensures
        state.page == Page::Overview ==> (s matches Screen::Overview(v) && overview_ok(v, *state, width)),
        state.page == Page::Network ==> (s matches Screen::Network(v) && network_ok(v, *state, width)),
{
    match state.page {
        Page::Overview => Screen::Overview(overview(state, width)),
        Page::Network => Screen::Network(network(state, width)),
    }
}

} // verus!
