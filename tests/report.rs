use hexfetch::color::Color;
use hexfetch::cpu::{trim_padding, CpuInfo, Registers};
use hexfetch::format::{write_number, write_truncated, write_uptime};
use hexfetch::hex_fetch::HexFetch;
use hexfetch::probe::{detect_memory_kb, get_uptime_seconds, split_uptime};
use hexfetch::writer::{ColoredByte, Writer};

fn le(bytes: &[u8]) -> u32 {
    u32::from_le_bytes([bytes[0], bytes[1], bytes[2], bytes[3]])
}

fn vendor_leaf(vendor: &[u8; 12]) -> Registers {
    Registers { eax: 0xd, ebx: le(&vendor[0..4]), ecx: le(&vendor[8..12]), edx: le(&vendor[4..8]) }
}

fn brand_leaf(brand: &[u8; 48], i: usize) -> Registers {
    let b = &brand[i * 16..i * 16 + 16];
    Registers { eax: le(&b[0..4]), ebx: le(&b[4..8]), ecx: le(&b[8..12]), edx: le(&b[12..16]) }
}

fn brand_of(text: &str) -> [u8; 48] {
    let mut brand = [0u8; 48];
    brand[..text.len()].copy_from_slice(text.as_bytes());
    brand
}

fn text_of(w: &Writer) -> String {
    String::from_utf8(w.text()).unwrap()
}

fn fresh() -> Writer {
    Writer::new(Color::LightGray, Color::Black)
}

fn zero() -> Registers {
    Registers { eax: 0, ebx: 0, ecx: 0, edx: 0 }
}

#[test]
fn write_number_zero() {
    let mut w = fresh();
    write_number(&mut w, 0);
    assert_eq!(text_of(&w), "0");
}

#[test]
fn write_number_max() {
    let mut w = fresh();
    write_number(&mut w, 4294967295);
    assert_eq!(text_of(&w), "4294967295");
    assert_eq!(w.text().len(), 10);
}

#[test]
fn write_number_ordinary_values() {
    let mut w = fresh();
    write_number(&mut w, 130);
    write_number(&mut w, 7);
    write_number(&mut w, 1000000000);
    assert_eq!(text_of(&w), "13071000000000");
}

#[test]
fn write_number_keeps_colours() {
    let mut w = Writer::new(Color::Yellow, Color::Blue);
    write_number(&mut w, 42);
    let expected = vec![
        ColoredByte { byte: b'4', fg: Color::Yellow, bg: Color::Blue },
        ColoredByte { byte: b'2', fg: Color::Yellow, bg: Color::Blue },
    ];
    assert_eq!(w.cells_written(), &expected);
    assert_eq!(w.color(), (Color::Yellow, Color::Blue));
}

#[test]
fn write_uptime_without_hours() {
    let mut w = fresh();
    write_uptime(&mut w, 0, 5, 9);
    assert_eq!(text_of(&w), "5m 9s");
}

#[test]
fn write_uptime_with_hours() {
    let mut w = fresh();
    write_uptime(&mut w, 2, 0, 0);
    assert_eq!(text_of(&w), "2h 0m 0s");
}

#[test]
fn write_truncated_cuts_long_text() {
    let mut w = fresh();
    write_truncated(&mut w, b"abcdefgh", 5);
    assert_eq!(text_of(&w), "abcde");
}

#[test]
fn write_truncated_keeps_short_text() {
    let mut w = fresh();
    write_truncated(&mut w, b"abc", 5);
    assert_eq!(text_of(&w), "abc");
}

#[test]
fn write_truncated_exact_length_and_zero_limit() {
    let mut w = fresh();
    write_truncated(&mut w, b"abcde", 5);
    write_truncated(&mut w, b"xyz", 0);
    assert_eq!(text_of(&w), "abcde");
}

#[test]
fn write_truncated_cuts_inside_a_character() {
    let mut w = fresh();
    write_truncated(&mut w, "aé".as_bytes(), 2);
    assert_eq!(w.text(), vec![b'a', 0xc3]);
}

#[test]
fn memory_adds_assumed_extended_memory() {
    assert_eq!(detect_memory_kb(0), 131072);
    assert_eq!(detect_memory_kb(640), 131712);
    assert_eq!(detect_memory_kb(2048), 133120);
    assert_eq!(detect_memory_kb(65535), 196607);
}

#[test]
fn uptime_truncates_ticks() {
    assert_eq!(get_uptime_seconds(0), 0);
    assert_eq!(get_uptime_seconds(17), 0);
    assert_eq!(get_uptime_seconds(1800), 100);
    assert_eq!(get_uptime_seconds(u32::MAX), 238609294);
}

#[test]
fn uptime_split_adds_up() {
    for u in [0u32, 59, 60, 3599, 3600, 3661, 100, 238609294] {
        let (h, m, s) = split_uptime(u);
        assert_eq!(h * 3600 + m * 60 + s, u);
        assert!(m < 60 && s < 60);
    }
    assert_eq!(split_uptime(3661), (1, 1, 1));
}

#[test]
fn vendor_string_is_packed_registers() {
    let leaf0 = Registers { eax: 0x16, ebx: 0x756e6547, ecx: 0x6c65746e, edx: 0x49656e69 };
    let info = CpuInfo::detect(|leaf: u32| if leaf == 0 { leaf0 } else { zero() });
    assert_eq!(info.vendor_str(), b"GenuineIntel");
    assert_eq!(info.vendor_str().len(), 12);
    let amd = vendor_leaf(b"AuthenticAMD");
    let info = CpuInfo::detect(|leaf: u32| if leaf == 0 { amd } else { zero() });
    assert_eq!(info.vendor_str(), b"AuthenticAMD");
}

#[test]
fn vendor_string_not_utf8_is_unknown() {
    let leaf0 = Registers { eax: 0, ebx: 0xffffffff, ecx: 0, edx: 0 };
    let info = CpuInfo::detect(|leaf: u32| if leaf == 0 { leaf0 } else { zero() });
    assert_eq!(info.vendor_str(), b"Unknown");
}

#[test]
fn brand_without_support_is_vendor() {
    let leaf0 = vendor_leaf(b"GenuineIntel");
    let info = CpuInfo::detect(|leaf: u32| match leaf {
        0 => leaf0,
        0x80000000 => Registers { eax: 0x80000003, ebx: 0, ecx: 0, edx: 0 },
        _ => Registers { eax: 0x41414141, ebx: 0x41414141, ecx: 0x41414141, edx: 0x41414141 },
    });
    assert_eq!(info.brand_str(), info.vendor_str());
    assert_eq!(info.brand_str(), b"GenuineIntel");
}

#[test]
fn brand_string_is_read_and_trimmed() {
    let brand = brand_of("       Intel(R) Core(TM) i7-8700K CPU @ 3.70GHz");
    let leaf0 = vendor_leaf(b"GenuineIntel");
    let info = CpuInfo::detect(|leaf: u32| match leaf {
        0 => leaf0,
        0x80000000 => Registers { eax: 0x80000008, ebx: 0, ecx: 0, edx: 0 },
        0x80000002 => brand_leaf(&brand, 0),
        0x80000003 => brand_leaf(&brand, 1),
        0x80000004 => brand_leaf(&brand, 2),
        _ => zero(),
    });
    assert_eq!(info.brand_str(), b"Intel(R) Core(TM) i7-8700K CPU @ 3.70GHz");
}

#[test]
fn brand_string_not_utf8_is_unknown() {
    let leaf0 = vendor_leaf(b"GenuineIntel");
    let info = CpuInfo::detect(|leaf: u32| match leaf {
        0 => leaf0,
        0x80000000 => Registers { eax: 0x80000004, ebx: 0, ecx: 0, edx: 0 },
        0x80000002 => Registers { eax: 0xfffefdfc, ebx: 0, ecx: 0, edx: 0 },
        _ => zero(),
    });
    assert_eq!(info.brand_str(), b"Unknown");
}

#[test]
fn from_leaves_packs_in_order() {
    let brand = brand_of("AMD Ryzen 7 5800X 8-Core Processor             ");
    let leaves = [brand_leaf(&brand, 0), brand_leaf(&brand, 1), brand_leaf(&brand, 2)];
    let info = CpuInfo::from_leaves(vendor_leaf(b"AuthenticAMD"), 0x80000004, leaves);
    assert_eq!(info.vendor_str(), b"AuthenticAMD");
    assert_eq!(info.brand_str(), b"AMD Ryzen 7 5800X 8-Core Processor");
    let info = CpuInfo::from_leaves(vendor_leaf(b"AuthenticAMD"), 0x80000001, leaves);
    assert_eq!(info.brand_str(), b"AuthenticAMD");
}

#[test]
fn trim_padding_strips_nul_and_space() {
    assert_eq!(trim_padding(b"\0 ab c \0\0"), b"ab c");
    assert_eq!(trim_padding(b"  \0 "), b"");
    assert_eq!(trim_padding(b""), b"");
    assert_eq!(trim_padding(b"x"), b"x");
}

fn expected_report(uptime: &str, cpu: &str, memory: &str) -> String {
    let mut s = String::new();
    s.push_str("    __  __          _            OS: HyzeOS\n");
    s.push_str("   / / / /__  _  __(_)_  ______ _Kernel: 0.1.0\n");
    s.push_str("  / /_/ / _ \\| |/_/ / / / / __ `/Uptime: ");
    s.push_str(uptime);
    s.push('\n');
    s.push_str(" / __  /  __/>  </ / /_/ / /_/ / Shell: HexShell\n");
    s.push_str("/_/ /_/\\___/_/|_/_/\\__,_/\\__,_/  CPU: ");
    s.push_str(cpu);
    s.push('\n');
    s.push_str("                                 Memory: ");
    s.push_str(memory);
    s.push_str(" MB\n");
    s.push_str("                                 Arch: i386\n");
    s.push_str("\n                    ");
    s.push_str("\n                    ");
    s.push('\n');
    s
}

#[test]
fn fetch_end_to_end() {
    let leaf0 = vendor_leaf(b"GenuineIntel");
    let mut w = fresh();
    HexFetch::fetch(
        &mut w,
        |leaf: u32| match leaf {
            0 => leaf0,
            0x80000000 => Registers { eax: 0x80000001, ebx: 0, ecx: 0, edx: 0 },
            _ => zero(),
        },
        2048,
        1800,
    );
    let text = text_of(&w);
    assert_eq!(text, expected_report("1m 40s", "GenuineIntel", "130"));
    assert!(text.contains("CPU: GenuineIntel\n"));
    assert!(text.contains("Memory: 130 MB\n"));
    assert!(text.contains("Uptime: 1m 40s\n"));
    assert_eq!(w.color(), (Color::White, Color::Black));
}

#[test]
fn render_with_hours_and_long_brand() {
    let brand = brand_of("Intel(R) Core(TM) i7-8700K CPU @ 3.70GHz");
    let leaves = [brand_leaf(&brand, 0), brand_leaf(&brand, 1), brand_leaf(&brand, 2)];
    let cpu = CpuInfo::from_leaves(vendor_leaf(b"GenuineIntel"), 0x80000008, leaves);
    let mut w = fresh();
    HexFetch::render(&mut w, &cpu, 1048576, 7384);
    assert_eq!(
        text_of(&w),
        expected_report("2h 3m 4s", "Intel(R) Core(TM) i7-8700", "1024")
    );
}

#[test]
fn report_colours() {
    let leaf0 = vendor_leaf(b"GenuineIntel");
    let mut w = fresh();
    HexFetch::fetch(&mut w, |leaf: u32| if leaf == 0 { leaf0 } else { zero() }, 0, 0);
    let cells = w.cells_written();
    assert_eq!((cells[0].fg, cells[0].bg), (Color::LightCyan, Color::Black));
    assert_eq!((cells[33].byte, cells[33].fg), (b'O', Color::Yellow));
    assert_eq!((cells[37].byte, cells[37].fg), (b'H', Color::White));
    let n = cells.len();
    let swatch_row: Vec<Color> = (0..8).map(|i| cells[n - 1 - 21 - 16 + 2 * i].fg).collect();
    assert_eq!(
        swatch_row,
        vec![
            Color::Black,
            Color::Red,
            Color::Green,
            Color::Brown,
            Color::Blue,
            Color::Magenta,
            Color::Cyan,
            Color::LightGray
        ]
    );
    let bright_row: Vec<Color> = (0..8).map(|i| cells[n - 1 - 16 + 2 * i].bg).collect();
    assert_eq!(
        bright_row,
        vec![
            Color::DarkGray,
            Color::LightRed,
            Color::LightGreen,
            Color::Yellow,
            Color::LightBlue,
            Color::Pink,
            Color::LightCyan,
            Color::White
        ]
    );
    assert_eq!((cells[n - 1].byte, cells[n - 1].fg, cells[n - 1].bg), (b'\n', Color::White, Color::Black));
}
