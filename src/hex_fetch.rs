use vstd::prelude::*;
use vstd::string::StringSliceAdditionalSpecFns;

use crate::color::Color;
use crate::cpu::{reported_by, CpuInfo, Registers};
use crate::format::{uptime_text, write_number, write_truncated, write_uptime, decimal, truncated};
use crate::probe::{detect_memory_kb, get_uptime_seconds, split_uptime};
use crate::writer::{lemma_concat_assoc, lemma_painted_concat, painted, ColoredByte, Writer};

verus! {

/// Widest CPU name shown, in bytes.
pub const CPU_NAME_WIDTH: usize = 25;

/// One report line: a piece of the logo in light cyan, a label in yellow and
/// a value in white, all on black.
pub open spec fn report_line(art: Seq<u8>, label: Seq<u8>, value: Seq<u8>) -> Seq<ColoredByte> {
    painted(art, Color::LightCyan, Color::Black) + painted(label, Color::Yellow, Color::Black)
        + painted(value, Color::White, Color::Black)
}

/// The seven logo-and-information lines for a CPU name `cpu`, `memory_mb`
/// megabytes and `uptime` seconds.
pub open spec fn info_lines(cpu: Seq<u8>, memory_mb: nat, uptime: nat) -> Seq<ColoredByte> {
    report_line(
        "    __  __          _            ".spec_bytes(),
        "OS: ".spec_bytes(),
        "HyzeOS\n".spec_bytes(),
    ) + report_line(
        "   / / / /__  _  __(_)_  ______ _".spec_bytes(),
        "Kernel: ".spec_bytes(),
        "0.1.0\n".spec_bytes(),
    ) + report_line(
        "  / /_/ / _ \\| |/_/ / / / / __ `/".spec_bytes(),
        "Uptime: ".spec_bytes(),
        uptime_text(uptime / 3600, (uptime % 3600) / 60, uptime % 60) + "\n".spec_bytes(),
    ) + report_line(
        " / __  /  __/>  </ / /_/ / /_/ / ".spec_bytes(),
        "Shell: ".spec_bytes(),
        "HexShell\n".spec_bytes(),
    ) + report_line(
        "/_/ /_/\\___/_/|_/_/\\__,_/\\__,_/  ".spec_bytes(),
        "CPU: ".spec_bytes(),
        truncated(cpu, CPU_NAME_WIDTH as nat) + "\n".spec_bytes(),
    ) + report_line(
        "                                 ".spec_bytes(),
        "Memory: ".spec_bytes(),
        decimal(memory_mb) + " MB\n".spec_bytes(),
    ) + report_line(
        "                                 ".spec_bytes(),
        "Arch: ".spec_bytes(),
        "i386\n".spec_bytes(),
    )
}

/// The eight base colours in swatch order.
pub open spec fn base_palette() -> Seq<Color> {
    seq![
        Color::Black,
        Color::Red,
        Color::Green,
        Color::Brown,
        Color::Blue,
        Color::Magenta,
        Color::Cyan,
        Color::LightGray,
    ]
}

/// The eight bright colours in swatch order.
pub open spec fn bright_palette() -> Seq<Color> {
    seq![
        Color::DarkGray,
        Color::LightRed,
        Color::LightGreen,
        Color::Yellow,
        Color::LightBlue,
        Color::Pink,
        Color::LightCyan,
        Color::White,
    ]
}

/// A swatch of two blanks in each of `colors`, drawn in that colour on itself.
pub open spec fn swatches(colors: Seq<Color>) -> Seq<ColoredByte>
    decreases colors.len(),
{
    if colors.len() == 0 {
        Seq::empty()
    } else {
        swatches(colors.drop_last()) + painted(
            "  ".spec_bytes(),
            colors.last(),
            colors.last(),
        )
    }
}

/// The palette block: a blank line, then a row of the base colours and a row
/// of the bright ones, each indented and ended in white on black.
pub open spec fn palette_block() -> Seq<ColoredByte> {
    painted("\n    ".spec_bytes(), Color::White, Color::Black) + swatches(base_palette())
        + painted("\n    ".spec_bytes(), Color::White, Color::Black) + swatches(bright_palette())
        + painted("\n".spec_bytes(), Color::White, Color::Black)
}

/// The whole report.
pub open spec fn report(cpu: Seq<u8>, memory_mb: nat, uptime: nat) -> Seq<ColoredByte> {
    info_lines(cpu, memory_mb, uptime) + palette_block()
}

/// The base colours when `bright` is false, the bright ones when it is true.
pub open spec fn palette(bright: bool) -> Seq<Color> {
    if bright {
        bright_palette()
    } else {
        base_palette()
    }
}

/// The swatch colour at position `i` of the base or the bright row.
fn swatch_color(bright: bool, i: usize) -> (c: Color)
    requires
        i < 8,
    ensures
        c == palette(bright)[i as int],
{
    if bright {
        match i {
            0 => Color::DarkGray,
            1 => Color::LightRed,
            2 => Color::LightGreen,
            3 => Color::Yellow,
            4 => Color::LightBlue,
            5 => Color::Pink,
            6 => Color::LightCyan,
            _ => Color::White,
        }
    } else {
        match i {
            0 => Color::Black,
            1 => Color::Red,
            2 => Color::Green,
            3 => Color::Brown,
            4 => Color::Blue,
            5 => Color::Magenta,
            6 => Color::Cyan,
            _ => Color::LightGray,
        }
    }
}

/// Writes one row of eight swatches, then returns to white on black.
fn write_swatch_row(writer: &mut Writer, bright: bool)
    ensures
        final(writer).cells() == old(writer).cells() + swatches(palette(bright)),
        final(writer).fg() == Color::White,
        final(writer).bg() == Color::Black,
{
    let ghost start = writer.cells();
    let mut i: usize = 0;
    while i < 8
        invariant
            i <= 8,
            palette(bright).len() == 8,
            writer.cells() == start + swatches(palette(bright).take(i as int)),
        decreases 8 - i,
    {
        let color = swatch_color(bright, i);
        writer.set_color(color, color);
        writer.write_str("  ");
        assert(palette(bright).take(i + 1).drop_last() =~= palette(bright).take(i as int));
        assert(writer.cells() =~= start + swatches(palette(bright).take(i + 1)));
        i += 1;
    }
    assert(palette(bright).take(8) =~= palette(bright));
    writer.set_color(Color::White, Color::Black);
}

/// Writes a piece of the logo in light cyan and a label in yellow, then
/// selects white on black for the value.
fn write_label(writer: &mut Writer, art: &str, label: &str)
    ensures
        final(writer).cells() == old(writer).cells() + painted(
            art.spec_bytes(),
            Color::LightCyan,
            Color::Black,
        ) + painted(label.spec_bytes(), Color::Yellow, Color::Black),
        final(writer).fg() == Color::White,
        final(writer).bg() == Color::Black,
{
    writer.set_color(Color::LightCyan, Color::Black);
    writer.write_str(art);
    writer.set_color(Color::Yellow, Color::Black);
    writer.write_str(label);
    writer.set_color(Color::White, Color::Black);
}

/// Writes a line whose value is the fixed text `value`.
fn write_line(writer: &mut Writer, art: &str, label: &str, value: &str)
    ensures
        final(writer).cells() == old(writer).cells() + report_line(
            art.spec_bytes(),
            label.spec_bytes(),
            value.spec_bytes(),
        ),
        final(writer).fg() == Color::White,
        final(writer).bg() == Color::Black,
{
    let ghost start = writer.cells();
    write_label(writer, art, label);
    writer.write_str(value);
    proof {
        let pa = painted(art.spec_bytes(), Color::LightCyan, Color::Black);
        let pl = painted(label.spec_bytes(), Color::Yellow, Color::Black);
        let pv = painted(value.spec_bytes(), Color::White, Color::Black);
        lemma_concat_assoc(start + pa, pl, pv);
        lemma_concat_assoc(start, pa, pl + pv);
        lemma_concat_assoc(pa, pl, pv);
    }
}

/// Writes the uptime line for `uptime` seconds.
fn write_uptime_line(writer: &mut Writer, uptime: u32)
    ensures
        final(writer).cells() == old(writer).cells() + report_line(
            "  / /_/ / _ \\| |/_/ / / / / __ `/".spec_bytes(),
            "Uptime: ".spec_bytes(),
            uptime_text(uptime as nat / 3600, (uptime as nat % 3600) / 60, uptime as nat % 60)
                + "\n".spec_bytes(),
        ),
        final(writer).fg() == Color::White,
        final(writer).bg() == Color::Black,
{
    let ghost start = writer.cells();
    let (hours, minutes, seconds) = split_uptime(uptime);
    write_label(writer, "  / /_/ / _ \\| |/_/ / / / / __ `/", "Uptime: ");
    write_uptime(writer, hours, minutes, seconds);
    writer.write_str("\n");
    proof {
        let text = uptime_text(hours as nat, minutes as nat, seconds as nat);
        let pa = painted("  / /_/ / _ \\| |/_/ / / / / __ `/".spec_bytes(), Color::LightCyan, Color::Black);
        let pl = painted("Uptime: ".spec_bytes(), Color::Yellow, Color::Black);
        let pt = painted(text, Color::White, Color::Black);
        let pn = painted("\n".spec_bytes(), Color::White, Color::Black);
        lemma_painted_concat(text, "\n".spec_bytes(), Color::White, Color::Black);
        lemma_concat_assoc(start + pa + pl, pt, pn);
        lemma_concat_assoc(start + pa, pl, pt + pn);
        lemma_concat_assoc(start, pa, pl + (pt + pn));
        lemma_concat_assoc(pa, pl, pt + pn);
    }
}

/// Writes the CPU line: the brand text, cut to the name width.
fn write_cpu_line(writer: &mut Writer, cpu: &CpuInfo)
    ensures
        final(writer).cells() == old(writer).cells() + report_line(
            "/_/ /_/\\___/_/|_/_/\\__,_/\\__,_/  ".spec_bytes(),
            "CPU: ".spec_bytes(),
            truncated(cpu.brand_text(), CPU_NAME_WIDTH as nat) + "\n".spec_bytes(),
        ),
        final(writer).fg() == Color::White,
        final(writer).bg() == Color::Black,
{
    let ghost start = writer.cells();
    write_label(writer, "/_/ /_/\\___/_/|_/_/\\__,_/\\__,_/  ", "CPU: ");
    write_truncated(writer, cpu.brand_str(), CPU_NAME_WIDTH);
    writer.write_str("\n");
    proof {
        let text = truncated(cpu.brand_text(), CPU_NAME_WIDTH as nat);
        let pa = painted("/_/ /_/\\___/_/|_/_/\\__,_/\\__,_/  ".spec_bytes(), Color::LightCyan, Color::Black);
        let pl = painted("CPU: ".spec_bytes(), Color::Yellow, Color::Black);
        let pt = painted(text, Color::White, Color::Black);
        let pn = painted("\n".spec_bytes(), Color::White, Color::Black);
        lemma_painted_concat(text, "\n".spec_bytes(), Color::White, Color::Black);
        lemma_concat_assoc(start + pa + pl, pt, pn);
        lemma_concat_assoc(start + pa, pl, pt + pn);
        lemma_concat_assoc(start, pa, pl + (pt + pn));
        lemma_concat_assoc(pa, pl, pt + pn);
    }
}

/// Writes the memory line for `memory_mb` megabytes.
fn write_memory_line(writer: &mut Writer, memory_mb: u32)
    ensures
        final(writer).cells() == old(writer).cells() + report_line(
            "                                 ".spec_bytes(),
            "Memory: ".spec_bytes(),
            decimal(memory_mb as nat) + " MB\n".spec_bytes(),
        ),
        final(writer).fg() == Color::White,
        final(writer).bg() == Color::Black,
{
    let ghost start = writer.cells();
    write_label(writer, "                                 ", "Memory: ");
    write_number(writer, memory_mb);
    writer.write_str(" MB\n");
    proof {
        let text = decimal(memory_mb as nat);
        let pa = painted("                                 ".spec_bytes(), Color::LightCyan, Color::Black);
        let pl = painted("Memory: ".spec_bytes(), Color::Yellow, Color::Black);
        let pt = painted(text, Color::White, Color::Black);
        let pn = painted(" MB\n".spec_bytes(), Color::White, Color::Black);
        lemma_painted_concat(text, " MB\n".spec_bytes(), Color::White, Color::Black);
        lemma_concat_assoc(start + pa + pl, pt, pn);
        lemma_concat_assoc(start + pa, pl, pt + pn);
        lemma_concat_assoc(start, pa, pl + (pt + pn));
        lemma_concat_assoc(pa, pl, pt + pn);
    }
}

/// The system-information report.
pub struct HexFetch {}

impl HexFetch {
    /// Writes the report for a CPU identity, `memory_kb` kilobytes of memory
    /// and `uptime` seconds since boot, and leaves the writer in white on
    /// black.
    pub fn render(writer: &mut Writer, cpu: &CpuInfo, memory_kb: u32, uptime: u32)
        ensures
            final(writer).cells() == old(writer).cells() + report(
                cpu.brand_text(),
                memory_kb as nat / 1024,
                uptime as nat,
            ),
            final(writer).fg() == Color::White,
            final(writer).bg() == Color::Black,
    {
        let memory_mb = memory_kb / 1024;
        let ghost start = writer.cells();
        let ghost l1 = report_line(
            "    __  __          _            ".spec_bytes(),
            "OS: ".spec_bytes(),
            "HyzeOS\n".spec_bytes(),
        );
        let ghost l2 = report_line(
            "   / / / /__  _  __(_)_  ______ _".spec_bytes(),
            "Kernel: ".spec_bytes(),
            "0.1.0\n".spec_bytes(),
        );
        let ghost l3 = report_line(
            "  / /_/ / _ \\| |/_/ / / / / __ `/".spec_bytes(),
            "Uptime: ".spec_bytes(),
            uptime_text(uptime as nat / 3600, (uptime as nat % 3600) / 60, uptime as nat % 60)
                + "\n".spec_bytes(),
        );
        let ghost l4 = report_line(
            " / __  /  __/>  </ / /_/ / /_/ / ".spec_bytes(),
            "Shell: ".spec_bytes(),
            "HexShell\n".spec_bytes(),
        );
        let ghost l5 = report_line(
            "/_/ /_/\\___/_/|_/_/\\__,_/\\__,_/  ".spec_bytes(),
            "CPU: ".spec_bytes(),
            truncated(cpu.brand_text(), CPU_NAME_WIDTH as nat) + "\n".spec_bytes(),
        );
        let ghost l6 = report_line(
            "                                 ".spec_bytes(),
            "Memory: ".spec_bytes(),
            decimal(memory_mb as nat) + " MB\n".spec_bytes(),
        );
        let ghost l7 = report_line(
            "                                 ".spec_bytes(),
            "Arch: ".spec_bytes(),
            "i386\n".spec_bytes(),
        );

        write_line(writer, "    __  __          _            ", "OS: ", "HyzeOS\n");
        write_line(writer, "   / / / /__  _  __(_)_  ______ _", "Kernel: ", "0.1.0\n");
        proof {
            lemma_concat_assoc(start, l1, l2);
        }
        write_uptime_line(writer, uptime);
        proof {
            lemma_concat_assoc(start, l1 + l2, l3);
        }
        write_line(writer, " / __  /  __/>  </ / /_/ / /_/ / ", "Shell: ", "HexShell\n");
        proof {
            lemma_concat_assoc(start, l1 + l2 + l3, l4);
        }
        write_cpu_line(writer, cpu);
        proof {
            lemma_concat_assoc(start, l1 + l2 + l3 + l4, l5);
        }
        write_memory_line(writer, memory_mb);
        proof {
            lemma_concat_assoc(start, l1 + l2 + l3 + l4 + l5, l6);
        }
        write_line(writer, "                                 ", "Arch: ", "i386\n");
        proof {
            lemma_concat_assoc(start, l1 + l2 + l3 + l4 + l5 + l6, l7);
        }
        let ghost lines = writer.cells();
        assert(lines == start + info_lines(cpu.brand_text(), memory_mb as nat, uptime as nat));

        writer.write_str("\n    ");
        write_swatch_row(writer, false);
        writer.write_str("\n    ");
        write_swatch_row(writer, true);
        writer.write_str("\n");
        proof {
            let p1 = painted("\n    ".spec_bytes(), Color::White, Color::Black);
            let s1 = swatches(base_palette());
            let s2 = swatches(bright_palette());
            let p3 = painted("\n".spec_bytes(), Color::White, Color::Black);
            lemma_concat_assoc(lines, p1, s1);
            lemma_concat_assoc(lines, p1 + s1, p1);
            lemma_concat_assoc(lines, p1 + s1 + p1, s2);
            lemma_concat_assoc(lines, p1 + s1 + p1 + s2, p3);
            lemma_concat_assoc(start, info_lines(cpu.brand_text(), memory_mb as nat, uptime as nat), palette_block());
        }
    }

    /// Gathers the CPU identity through `query` (which executes the
    /// identification instruction for a leaf), the memory size from the
    /// BIOS-reported low memory `base_memory_kb`, and the uptime from the
    /// timer's tick count `ticks`, then writes the report.
    pub fn fetch<F: Fn(u32) -> Registers>(
        writer: &mut Writer,
        query: F,
        base_memory_kb: u16,
        ticks: u32,
    )
        requires
            forall|leaf: u32| call_requires(query, (leaf,)),
        ensures
            exists|cpu: CpuInfo|
                #![trigger reported_by(query, cpu)]
                reported_by(query, cpu) && final(writer).cells() == old(writer).cells() + report(
                    cpu.brand_text(),
                    (base_memory_kb + 131072) as nat / 1024,
                    ticks as nat / 18,
                ),
            final(writer).fg() == Color::White,
            final(writer).bg() == Color::Black,
    {
        let cpu = CpuInfo::detect(query);
        let memory_kb = detect_memory_kb(base_memory_kb);
        let uptime = get_uptime_seconds(ticks);
        HexFetch::render(writer, &cpu, memory_kb, uptime);
        assert(reported_by(query, cpu));
    }
}

} // verus!
