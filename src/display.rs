use vstd::prelude::*;
use vstd::string::*;
use crate::types::{
    DiskInfo, UsageThresholds, usage_den, round_half_even, div_round_half_even,
    lemma_round_half_even_shift,
};

verus! {

/// The character of a decimal digit.
pub open spec fn digit_char(d: nat) -> char {
    seq!['0', '1', '2', '3', '4', '5', '6', '7', '8', '9'][d as int]
}

/// The decimal numeral of `n`, without leading zeros.
pub open spec fn decimal(n: nat) -> Seq<char>
    decreases n,
{
    if n < 10 {
        seq![digit_char(n)]
    } else {
        decimal(n / 10).push(digit_char(n % 10))
    }
}

/// Appends the digit `d`.
fn push_digit(out: &mut String, d: u128)
    requires
        d < 10,
    ensures
        final(out)@ == old(out)@.push(digit_char(d as nat)),
{
    let digits = "0123456789";
    proof {
        reveal_strlit("0123456789");
    }
    assert(digits@ =~= seq!['0', '1', '2', '3', '4', '5', '6', '7', '8', '9']);
    let piece = digits.substring_char(d as usize, d as usize + 1);
    assert(piece@ =~= seq![digit_char(d as nat)]);
    out.append(piece);
}

/// Appends the decimal numeral of `n`.
fn push_decimal(out: &mut String, n: u128)
    ensures
        final(out)@ == old(out)@ + decimal(n as nat),
    decreases n,
{
    if n < 10 {
        push_digit(out, n);
        assert(final(out)@ =~= old(out)@ + decimal(n as nat));
    } else {
        push_decimal(out, n / 10);
        push_digit(out, n % 10);
        assert(final(out)@ =~= old(out)@ + decimal(n as nat));
    }
}

/// Appends a literal whose characters are given.
fn push_text(out: &mut String, text: &str)
    ensures
        final(out)@ == old(out)@ + text@,
{
    out.append(text);
}

/// A quantity given in hundredths, written with two digits after the point.
pub open spec fn fixed2(h: nat) -> Seq<char> {
    decimal(h / 100) + seq!['.', digit_char((h % 100) / 10), digit_char(h % 10)]
}

/// A quantity given in tenths, written with one digit after the point.
pub open spec fn fixed1(t: nat) -> Seq<char> {
    decimal(t / 10) + seq!['.', digit_char(t % 10)]
}

pub const KIB: u64 = 1024;
pub const MIB: u64 = 1048576;
pub const GIB: u64 = 1073741824;
pub const TIB: u64 = 1099511627776;

/// The unit a byte count is shown in: the largest of TB, GB, MB that fits,
/// else KB.
pub open spec fn label_unit(bytes: nat) -> nat {
    if bytes >= TIB {
        TIB as nat
    } else if bytes >= GIB {
        GIB as nat
    } else if bytes >= MIB {
        MIB as nat
    } else {
        KIB as nat
    }
}

pub open spec fn label_suffix(bytes: nat) -> Seq<char> {
    if bytes >= TIB {
        seq![' ', 'T', 'B']
    } else if bytes >= GIB {
        seq![' ', 'G', 'B']
    } else if bytes >= MIB {
        seq![' ', 'M', 'B']
    } else {
        seq![' ', 'K', 'B']
    }
}

/// `bytes / unit` in hundredths, an exact half rounded to the even hundredth.
pub open spec fn hundredths(bytes: nat, unit: nat) -> nat {
    round_half_even(100 * bytes, unit)
}

/// The label of a byte count: two decimals and a unit suffix.
pub open spec fn byte_label(bytes: nat) -> Seq<char> {
    fixed2(hundredths(bytes, label_unit(bytes))) + label_suffix(bytes)
}

proof fn lemma_hundredths_split(bytes: nat, unit: nat)
    requires
        unit > 0,
    ensures
        hundredths(bytes, unit) == (bytes / unit) * 100 + round_half_even(100 * (bytes % unit), unit),
{
    let q = bytes / unit;
    let r = bytes % unit;
    vstd::arithmetic::div_mod::lemma_fundamental_div_mod(bytes as int, unit as int);
    assert(100 * bytes == 100 * r + (100 * q) * unit) by (nonlinear_arith)
        requires
            bytes == unit * q + r,
    ;
    lemma_round_half_even_shift(100 * r, 100 * q, unit);
}

/// The label of a count of up to 2^128 bytes.
fn byte_label_wide(bytes: u128) -> (r: String)
    ensures
        r@ == byte_label(bytes as nat),
{
    let (unit, suffix): (u128, &str) = if bytes >= TIB as u128 {
        (TIB as u128, " TB")
    } else if bytes >= GIB as u128 {
        (GIB as u128, " GB")
    } else if bytes >= MIB as u128 {
        (MIB as u128, " MB")
    } else {
        (KIB as u128, " KB")
    };
    proof {
        reveal_strlit(" TB");
        reveal_strlit(" GB");
        reveal_strlit(" MB");
        reveal_strlit(" KB");
        lemma_hundredths_split(bytes as nat, unit as nat);
    }
    assert(suffix@ =~= label_suffix(bytes as nat));
    let q = bytes / unit;
    let rem = bytes % unit;
    assert(q * 100 <= bytes * 100 / 1024) by (nonlinear_arith)
        requires
            q == bytes / unit,
            unit >= 1024,
    ;
    let h = q * 100 + div_round_half_even(100 * rem, unit);
    let mut out = String::new();
    push_decimal(&mut out, h / 100);
    let point = ".";
    proof {
        reveal_strlit(".");
    }
    push_text(&mut out, point);
    push_digit(&mut out, (h % 100) / 10);
    push_digit(&mut out, h % 10);
    push_text(&mut out, suffix);
    assert(out@ =~= byte_label(bytes as nat));
    out
}

/// A byte count in the largest unit among TB, GB, MB that it reaches (KB
/// below a megabyte), with two decimals: `format_bytes(1024) == "1.00 KB"`.
pub fn format_bytes(bytes: u64) -> (r: String)
    ensures
        r@ == byte_label(bytes as nat),
{
    byte_label_wide(bytes as u128)
}


/// How strongly a usage figure is flagged.
#[derive(Debug, Clone, Copy, PartialEq, Eq, Structural)]
pub enum Band {
    /// Colour is off.
    Neutral,
    /// Below the yellow cut-point.
    Normal,
    /// At or above yellow, below red.
    Warning,
    /// At or above red.
    Critical,
}

/// The band of the usage `used / total` (zero when `total == 0`) against
/// thresholds in hundredths of a percent: `100 * used / total >= red / 100`
/// reads `10000 * used >= red * total`.
pub open spec fn band_of(used: nat, total: nat, th: UsageThresholds, enable_color: bool) -> Band {
    if !enable_color {
        Band::Neutral
    } else if 10000 * used >= th.red * usage_den(total) {
        Band::Critical
    } else if 10000 * used >= th.yellow * usage_den(total) {
        Band::Warning
    } else {
        Band::Normal
    }
}

/// The severity band of `used` bytes out of `total`.
pub fn get_usage_color(used: u64, total: u64, thresholds: &UsageThresholds, enable_color: bool) -> (r:
    Band)
    ensures
        r == band_of(used as nat, total as nat, *thresholds, enable_color),
{
    if !enable_color {
        return Band::Neutral;
    }
    let den: u128 = if total == 0 {
        1
    } else {
        total as u128
    };
    let scaled: u128 = 10000 * (used as u128);
    let red = thresholds.red as u128;
    let yellow = thresholds.yellow as u128;
    assert(red * den < 0x1_0000_0000_0000_0000_0000_0000_0000_0000) by (nonlinear_arith)
        requires
            red < 0x1_0000_0000_0000_0000,
            den < 0x1_0000_0000_0000_0000,
    ;
    assert(yellow * den < 0x1_0000_0000_0000_0000_0000_0000_0000_0000) by (nonlinear_arith)
        requires
            yellow < 0x1_0000_0000_0000_0000,
            den < 0x1_0000_0000_0000_0000,
    ;
    if scaled >= red * den {
        Band::Critical
    } else if scaled >= yellow * den {
        Band::Warning
    } else {
        Band::Normal
    }
}

/// `n` copies of `piece`.
pub open spec fn repeat(piece: Seq<char>, n: nat) -> Seq<char>
    decreases n,
{
    if n == 0 {
        Seq::empty()
    } else {
        repeat(piece, (n - 1) as nat) + piece
    }
}

/// Appends `n` copies of `piece`.
fn push_repeat(out: &mut String, piece: &str, n: usize)
    ensures
        final(out)@ == old(out)@ + repeat(piece@, n as nat),
{
    let mut i: usize = 0;
    assert(out@ =~= old(out)@ + repeat(piece@, 0));
    while i < n
        invariant
            i <= n,
            out@ == old(out)@ + repeat(piece@, i as nat),
        decreases n - i,
    {
        out.append(piece);
        i = i + 1;
        assert(out@ =~= old(out)@ + repeat(piece@, i as nat));
    }
}

/// Width of the glyph run of a usage bar.
pub const BAR_WIDTH: u64 = 20;

/// Solid cells of the bar: `round(20 * used / total)`, half up, at most 20.
pub open spec fn bar_filled(used: nat, total: nat) -> nat {
    let f = if total == 0 {
        0
    } else {
        (40 * used + total) / (2 * total)
    };
    if f > BAR_WIDTH {
        BAR_WIDTH as nat
    } else {
        f
    }
}

/// The usage column: the percentage with one decimal and `%`, after a bar of
/// solid and hollow glyphs when bars are on.
pub open spec fn progress_text(used: nat, total: nat, tenths: nat, enable_bars: bool) -> Seq<
    char,
> {
    let pct = fixed1(tenths) + seq!['%'];
    if !enable_bars {
        pct
    } else {
        let filled = bar_filled(used, total);
        repeat(seq!['█'], filled) + repeat(seq!['░'], (BAR_WIDTH - filled) as nat) + seq![' ']
            + pct
    }
}

/// The usage column of a volume. Its colour comes from the row it stands in.
pub fn create_progress_bar(disk: &DiskInfo, enable_bars: bool) -> (r: String)
    ensures
        r@ == progress_text(
            disk.used_space as nat,
            disk.total_space as nat,
            disk.usage_tenths as nat,
            enable_bars,
        ),
{
    let mut out = String::new();
    if enable_bars {
        let filled: u128 = if disk.total_space == 0 {
            0
        } else {
            (40 * (disk.used_space as u128) + disk.total_space as u128) / (2 * (
            disk.total_space as u128))
        };
        let filled: u128 = if filled > BAR_WIDTH as u128 {
            BAR_WIDTH as u128
        } else {
            filled
        };
        let solid = "█";
        let hollow = "░";
        let space = " ";
        proof {
            reveal_strlit("█");
            reveal_strlit("░");
            reveal_strlit(" ");
        }
        assert(solid@ =~= seq!['█']);
        assert(hollow@ =~= seq!['░']);
        assert(space@ =~= seq![' ']);
        push_repeat(&mut out, solid, filled as usize);
        push_repeat(&mut out, hollow, (BAR_WIDTH as u128 - filled) as usize);
        push_text(&mut out, space);
        assert(filled as nat == bar_filled(disk.used_space as nat, disk.total_space as nat));
    }
    let ghost bar = out@;
    assert(enable_bars ==> bar =~= repeat(
        seq!['█'],
        bar_filled(disk.used_space as nat, disk.total_space as nat),
    ) + repeat(
        seq!['░'],
        (BAR_WIDTH - bar_filled(disk.used_space as nat, disk.total_space as nat)) as nat,
    ) + seq![' ']);
    assert(!enable_bars ==> bar =~= Seq::<char>::empty());
    let tenths = disk.usage_tenths as u128;
    push_decimal(&mut out, tenths / 10);
    let point = ".";
    let percent = "%";
    proof {
        reveal_strlit(".");
        reveal_strlit("%");
    }
    push_text(&mut out, point);
    push_digit(&mut out, tenths % 10);
    push_text(&mut out, percent);
    assert(out@ =~= bar + fixed1(disk.usage_tenths as nat) + seq!['%']);
    assert(out@ =~= progress_text(
        disk.used_space as nat,
        disk.total_space as nat,
        disk.usage_tenths as nat,
        enable_bars,
    ));
    out
}

/// `s` cut to `max_len` characters: unchanged when it fits, else its first
/// `max_len - 3` characters (none when `max_len < 3`) and `...`.
pub open spec fn truncated(s: Seq<char>, max_len: nat) -> Seq<char> {
    if s.len() <= max_len {
        s
    } else {
        let keep = if max_len >= 3 {
            (max_len - 3) as int
        } else {
            0
        };
        s.subrange(0, keep) + seq!['.', '.', '.']
    }
}

/// Shortens `s` to `max_len` characters with a trailing ellipsis.
pub fn truncate_string(s: &str, max_len: usize) -> (r: String)
    ensures
        r@ == truncated(s@, max_len as nat),
{
    let n = s.unicode_len();
    if n <= max_len {
        String::from_str(s)
    } else {
        let keep = max_len.saturating_sub(3);
        let head = s.substring_char(0, keep);
        let mut out = String::from_str(head);
        let dots = "...";
        proof {
            reveal_strlit("...");
        }
        push_text(&mut out, dots);
        out
    }
}

/// `s` followed by spaces up to `width` characters (never cut).
pub open spec fn padded(s: Seq<char>, width: nat) -> Seq<char> {
    if s.len() >= width {
        s
    } else {
        s + repeat(seq![' '], (width - s.len()) as nat)
    }
}

/// Appends `s` left-justified in a field of `width` characters.
fn push_padded(out: &mut String, s: &str, width: usize)
    ensures
        final(out)@ == old(out)@ + padded(s@, width as nat),
{
    out.append(s);
    let n = s.unicode_len();
    if n < width {
        let space = " ";
        proof {
            reveal_strlit(" ");
        }
        assert(space@ =~= seq![' ']);
        push_repeat(out, space, width - n);
    }
    assert(out@ =~= old(out)@ + padded(s@, width as nat));
}


/// Sum of the capacities.
pub open spec fn sum_total(s: Seq<DiskInfo>) -> nat
    decreases s.len(),
{
    if s.len() == 0 {
        0
    } else {
        sum_total(s.drop_last()) + s.last().total_space as nat
    }
}

/// Sum of the used space.
pub open spec fn sum_used(s: Seq<DiskInfo>) -> nat
    decreases s.len(),
{
    if s.len() == 0 {
        0
    } else {
        sum_used(s.drop_last()) + s.last().used_space as nat
    }
}

/// Sum of the free space.
pub open spec fn sum_available(s: Seq<DiskInfo>) -> nat
    decreases s.len(),
{
    if s.len() == 0 {
        0
    } else {
        sum_available(s.drop_last()) + s.last().available_space as nat
    }
}

/// How a line of the report is emphasised.
#[derive(Debug, Clone, Copy, PartialEq, Eq, Structural)]
pub enum LineStyle {
    Plain,
    Bold,
    BoldUnderline,
    /// In the colour of a severity band.
    Colored(Band),
}

/// One line of the report, with its emphasis.
pub struct ReportLine {
    pub text: String,
    pub style: LineStyle,
}

impl View for ReportLine {
    type V = (Seq<char>, LineStyle);

    open spec fn view(&self) -> (Seq<char>, LineStyle) {
        (self.text@, self.style)
    }
}

pub open spec fn lines_view(v: Seq<ReportLine>) -> Seq<(Seq<char>, LineStyle)> {
    v.map_values(|l: ReportLine| l@)
}

/// The column titles, each left-justified in its fixed width.
pub open spec fn header_text() -> Seq<char> {
    padded("Filesystem"@, 20) + seq![' '] + padded("Mounted on"@, 30) + seq![' '] + padded(
        "Size"@,
        12,
    ) + seq![' '] + padded("Used"@, 12) + seq![' '] + padded("Available"@, 12) + seq![' ']
        + padded("Use%"@, 30)
}

/// The row of one volume.
pub open spec fn row_text(d: DiskInfo, enable_bars: bool) -> Seq<char> {
    padded(truncated(d.name@, 20), 20) + seq![' '] + padded(truncated(d.mount_point@, 30), 30)
        + seq![' '] + padded(byte_label(d.total_space as nat), 12) + seq![' '] + padded(
        byte_label(d.used_space as nat),
        12,
    ) + seq![' '] + padded(byte_label(d.available_space as nat), 12) + seq![' '] + progress_text(
        d.used_space as nat,
        d.total_space as nat,
        d.usage_tenths as nat,
        enable_bars,
    )
}

/// The closing line, over the volumes shown.
pub open spec fn summary_text(s: Seq<DiskInfo>) -> Seq<char> {
    "Total: "@ + byte_label(sum_total(s)) + " size, "@ + byte_label(sum_used(s)) + " used, "@
        + byte_label(sum_available(s)) + " available"@
}

pub open spec fn heading(enable_color: bool) -> Seq<(Seq<char>, LineStyle)> {
    if enable_color {
        seq![(header_text(), LineStyle::BoldUnderline)]
    } else {
        seq![(header_text(), LineStyle::Plain), (repeat(seq!['-'], header_text().len()), LineStyle::Plain)]
    }
}

pub open spec fn row_line(
    d: DiskInfo,
    th: UsageThresholds,
    enable_color: bool,
    enable_bars: bool,
) -> (Seq<char>, LineStyle) {
    (
        row_text(d, enable_bars),
        if enable_color {
            LineStyle::Colored(band_of(d.used_space as nat, d.total_space as nat, th, true))
        } else {
            LineStyle::Plain
        },
    )
}

pub open spec fn row_lines(
    s: Seq<DiskInfo>,
    th: UsageThresholds,
    enable_color: bool,
    enable_bars: bool,
) -> Seq<(Seq<char>, LineStyle)> {
    Seq::new(s.len(), |i: int| row_line(s[i], th, enable_color, enable_bars))
}

/// The whole report: one notice for no volumes; else the heading, a row per
/// volume in the given order, a blank line and the totals.
pub open spec fn report(
    s: Seq<DiskInfo>,
    th: UsageThresholds,
    enable_color: bool,
    enable_bars: bool,
) -> Seq<(Seq<char>, LineStyle)> {
    if s.len() == 0 {
        seq![("No disks found matching the criteria."@, LineStyle::Plain)]
    } else {
        heading(enable_color) + row_lines(s, th, enable_color, enable_bars) + seq![
            (Seq::empty(), LineStyle::Plain),
            (summary_text(s), if enable_color {
                LineStyle::Bold
            } else {
                LineStyle::Plain
            }),
        ]
    }
}

/// The row of one volume, as text.
fn row_string(d: &DiskInfo, enable_bars: bool) -> (r: String)
    ensures
        r@ == row_text(*d, enable_bars),
{
    let space = " ";
    proof {
        reveal_strlit(" ");
    }
    assert(space@ =~= seq![' ']);
    let mut out = String::new();
    let name = truncate_string(d.name.as_str(), 20);
    push_padded(&mut out, name.as_str(), 20);
    push_text(&mut out, space);
    let mount = truncate_string(d.mount_point.as_str(), 30);
    push_padded(&mut out, mount.as_str(), 30);
    push_text(&mut out, space);
    let size = format_bytes(d.total_space);
    push_padded(&mut out, size.as_str(), 12);
    push_text(&mut out, space);
    let used = format_bytes(d.used_space);
    push_padded(&mut out, used.as_str(), 12);
    push_text(&mut out, space);
    let available = format_bytes(d.available_space);
    push_padded(&mut out, available.as_str(), 12);
    push_text(&mut out, space);
    let bar = create_progress_bar(d, enable_bars);
    push_text(&mut out, bar.as_str());
    assert(out@ =~= row_text(*d, enable_bars));
    out
}

/// The column titles.
fn header_string() -> (r: String)
    ensures
        r@ == header_text(),
{
    let space = " ";
    proof {
        reveal_strlit(" ");
    }
    assert(space@ =~= seq![' ']);
    let mut out = String::new();
    push_padded(&mut out, "Filesystem", 20);
    push_text(&mut out, space);
    push_padded(&mut out, "Mounted on", 30);
    push_text(&mut out, space);
    push_padded(&mut out, "Size", 12);
    push_text(&mut out, space);
    push_padded(&mut out, "Used", 12);
    push_text(&mut out, space);
    push_padded(&mut out, "Available", 12);
    push_text(&mut out, space);
    push_padded(&mut out, "Use%", 30);
    assert(out@ =~= header_text());
    out
}

/// The totals line over `disks`.
fn summary_string(disks: &Vec<DiskInfo>) -> (r: String)
    ensures
        r@ == summary_text(disks@),
{
    let mut total: u128 = 0;
    let mut used: u128 = 0;
    let mut available: u128 = 0;
    let mut i: usize = 0;
    while i < disks.len()
        invariant
            i <= disks@.len(),
            total == sum_total(disks@.take(i as int)),
            used == sum_used(disks@.take(i as int)),
            available == sum_available(disks@.take(i as int)),
            total <= i * 0xffff_ffff_ffff_ffff,
            used <= i * 0xffff_ffff_ffff_ffff,
            available <= i * 0xffff_ffff_ffff_ffff,
        decreases disks@.len() - i,
    {
        let d = &disks[i];
        assert(disks@.take(i + 1).drop_last() =~= disks@.take(i as int));
        assert(i + 1 <= 0xffff_ffff_ffff_ffff);
        assert((i + 1) * 0xffff_ffff_ffff_ffff < 0x1_0000_0000_0000_0000_0000_0000_0000_0000)
            by (nonlinear_arith)
            requires
                i + 1 <= 0xffff_ffff_ffff_ffff,
        ;
        total = total + d.total_space as u128;
        used = used + d.used_space as u128;
        available = available + d.available_space as u128;
        i = i + 1;
    }
    assert(disks@.take(i as int) =~= disks@);
    let mut out = String::new();
    push_text(&mut out, "Total: ");
    let t = byte_label_wide(total);
    push_text(&mut out, t.as_str());
    push_text(&mut out, " size, ");
    let u = byte_label_wide(used);
    push_text(&mut out, u.as_str());
    push_text(&mut out, " used, ");
    let a = byte_label_wide(available);
    push_text(&mut out, a.as_str());
    push_text(&mut out, " available");
    assert(out@ =~= summary_text(disks@));
    out
}

/// The report on `disks`, in their order, as lines with their emphasis.
pub fn display_disks(
    disks: &Vec<DiskInfo>,
    thresholds: &UsageThresholds,
    enable_color: bool,
    enable_bars: bool,
) -> (r: Vec<ReportLine>)
    ensures
        lines_view(r@) == report(disks@, *thresholds, enable_color, enable_bars),
{
    let mut lines: Vec<ReportLine> = Vec::new();
    if disks.len() == 0 {
        lines.push(
            ReportLine {
                text: String::from_str("No disks found matching the criteria."),
                style: LineStyle::Plain,
            },
        );
        assert(lines_view(lines@) =~= report(disks@, *thresholds, enable_color, enable_bars));
        return lines;
    }
    let header = header_string();
    if enable_color {
        lines.push(ReportLine { text: header, style: LineStyle::BoldUnderline });
    } else {
        let width = header.as_str().unicode_len();
        let mut rule = String::new();
        let dash = "-";
        proof {
            reveal_strlit("-");
        }
        assert(dash@ =~= seq!['-']);
        push_repeat(&mut rule, dash, width);
        lines.push(ReportLine { text: header, style: LineStyle::Plain });
        lines.push(ReportLine { text: rule, style: LineStyle::Plain });
    }
    assert(lines_view(lines@) =~= heading(enable_color));
    let mut i: usize = 0;
    while i < disks.len()
        invariant
            i <= disks@.len(),
            lines_view(lines@) =~= heading(enable_color) + row_lines(
                disks@.take(i as int),
                *thresholds,
                enable_color,
                enable_bars,
            ),
        decreases disks@.len() - i,
    {
        let d = &disks[i];
        let text = row_string(d, enable_bars);
        let style = if enable_color {
            LineStyle::Colored(get_usage_color(d.used_space, d.total_space, thresholds, true))
        } else {
            LineStyle::Plain
        };
        let ghost before = lines@;
        lines.push(ReportLine { text, style });
        assert(lines_view(lines@) =~= lines_view(before).push(
            row_line(disks@[i as int], *thresholds, enable_color, enable_bars),
        ));
        assert(row_lines(disks@.take(i + 1), *thresholds, enable_color, enable_bars) =~= row_lines(
            disks@.take(i as int),
            *thresholds,
            enable_color,
            enable_bars,
        ).push(row_line(disks@[i as int], *thresholds, enable_color, enable_bars)));
        i = i + 1;
        assert(lines_view(lines@) =~= heading(enable_color) + row_lines(
            disks@.take(i as int),
            *thresholds,
            enable_color,
            enable_bars,
        ));
    }
    assert(disks@.take(i as int) =~= disks@);
    lines.push(ReportLine { text: String::new(), style: LineStyle::Plain });
    let summary = summary_string(disks);
    let style = if enable_color {
        LineStyle::Bold
    } else {
        LineStyle::Plain
    };
    lines.push(ReportLine { text: summary, style });
    assert(lines_view(lines@) =~= report(disks@, *thresholds, enable_color, enable_bars));
    lines
}


/// Truncation leaves a text that fits as it is; a longer one becomes exactly
/// `max_len` characters, ending in `...` after its first `max_len - 3`
/// characters (for `max_len >= 3`).
pub proof fn lemma_truncation(s: Seq<char>, max_len: nat)
    ensures
        s.len() <= max_len ==> truncated(s, max_len) == s,
        s.len() > max_len && max_len >= 3 ==> {
            let t = truncated(s, max_len);
            &&& t.len() == max_len
            &&& t.subrange(max_len - 3, max_len as int) == seq!['.', '.', '.']
            &&& t.subrange(0, max_len - 3) == s.subrange(0, max_len - 3)
        },
{
    if s.len() > max_len && max_len >= 3 {
        let t = truncated(s, max_len);
        assert(t.subrange(max_len - 3, max_len as int) =~= seq!['.', '.', '.']);
        assert(t.subrange(0, max_len - 3) =~= s.subrange(0, max_len - 3));
    }
}

/// Band boundaries, with colour on: usage exactly at red is critical; exactly
/// at yellow, and below red, is a warning; below yellow and red it is normal.
/// Usage `p` hundredths of a percent means `10000 * used == p * total`.
pub proof fn lemma_band_boundaries(used: nat, total: nat, th: UsageThresholds)
    ensures
        10000 * used == th.red * usage_den(total) ==> band_of(used, total, th, true)
            == Band::Critical,
        10000 * used == th.yellow * usage_den(total) && 10000 * used < th.red * usage_den(total)
            ==> band_of(used, total, th, true) == Band::Warning,
        10000 * used < th.yellow * usage_den(total) && 10000 * used < th.red * usage_den(total)
            ==> band_of(used, total, th, true) == Band::Normal,
        band_of(used, total, th, false) == Band::Neutral,
{
}

} // verus!
