use iw::catalog::{HEADER_LINES, STATUS_FILE};
use iw::{list_interfaces_from, parse_interfaces, Interface, InterfaceListError};

fn names(found: &[Interface]) -> Vec<String> {
    found.iter().map(|i| i.name().to_string()).collect()
}

/// The same catalogue, written with the string functions of std.
fn by_std(table: &str) -> Vec<String> {
    table
        .lines()
        .skip(2)
        .map(|line| line.split(':').next().unwrap_or("").trim())
        .filter(|name| !name.is_empty())
        .map(String::from)
        .collect()
}

const SAMPLE: &str = "Inter-| sta-|   Quality        |   Discarded packets               | Missed | WE\n face | tus | link level noise |  nwid  crypt   frag  retry   misc | beacon | 22\n wlp3s0: 0000   57.  -53.  -256        0      0      0      0    131        0\n   wlan1: 0000   70.  -40.  -256        0      0      0      0      0        0\n";

#[test]
fn table_with_one_interface_lists_it() {
    let table = "Inter-| sta...\n face |...\n wlan0: 0000 70. -40. ...\n";
    assert_eq!(names(&parse_interfaces(table)), vec!["wlan0"]);
}

#[test]
fn table_lists_interfaces_in_file_order() {
    assert_eq!(names(&parse_interfaces(SAMPLE)), vec!["wlp3s0", "wlan1"]);
}

#[test]
fn header_alone_lists_nothing() {
    assert!(parse_interfaces("Inter-| sta...\n face |...\n").is_empty());
    assert!(parse_interfaces("Inter-| sta...\n face |...").is_empty());
}

#[test]
fn short_or_empty_table_lists_nothing() {
    assert!(parse_interfaces("").is_empty());
    assert!(parse_interfaces("\n").is_empty());
    assert!(parse_interfaces("wlan0: 0000").is_empty());
    assert!(parse_interfaces("wlan0: 0000\nwlan1: 0000").is_empty());
}

#[test]
fn header_lines_are_never_listed() {
    let table = "eth0: 1\neth1: 2\nwlan0: 3\n";
    assert_eq!(names(&parse_interfaces(table)), vec!["wlan0"]);
    assert_eq!(HEADER_LINES, 2);
}

#[test]
fn line_with_empty_name_is_left_out() {
    let table = "h\nh\n   : 0000 1. 2.\nwlan0: 0000\n: 0\n\t \t:\nwlan1: 0000\n";
    assert_eq!(names(&parse_interfaces(table)), vec!["wlan0", "wlan1"]);
}

#[test]
fn blank_lines_are_left_out() {
    let table = "h\nh\n\n   \nwlan0: 0000\n\n";
    assert_eq!(names(&parse_interfaces(table)), vec!["wlan0"]);
}

#[test]
fn name_ends_at_the_first_colon() {
    let table = "h\nh\nwlan0:1: 0000: 3\n";
    assert_eq!(names(&parse_interfaces(table)), vec!["wlan0"]);
}

#[test]
fn line_without_colon_names_itself() {
    let table = "h\nh\n  wlan0 0000 \n";
    assert_eq!(names(&parse_interfaces(table)), vec!["wlan0 0000"]);
}

#[test]
fn columns_may_have_any_width() {
    let table = "h\nh\nw:0\n                         averyverylonginterfacename0   :  0\n";
    assert_eq!(names(&parse_interfaces(table)), vec!["w", "averyverylonginterfacename0"]);
}

#[test]
fn inner_white_space_stays() {
    let table = "h\nh\n  my wlan \t: 0000\n";
    assert_eq!(names(&parse_interfaces(table)), vec!["my wlan"]);
}

#[test]
fn carriage_returns_are_white_space() {
    let table = "h\r\nh\r\nwlan0: 0000\r\n\r\nwlan1\r\n";
    assert_eq!(names(&parse_interfaces(table)), vec!["wlan0", "wlan1"]);
}

#[test]
fn every_white_space_character_is_trimmed() {
    let spaces = [
        '\u{9}', '\u{a}', '\u{b}', '\u{c}', '\u{d}', ' ', '\u{85}', '\u{a0}', '\u{1680}',
        '\u{2000}', '\u{2001}', '\u{2002}', '\u{2003}', '\u{2004}', '\u{2005}', '\u{2006}',
        '\u{2007}', '\u{2008}', '\u{2009}', '\u{200a}', '\u{2028}', '\u{2029}', '\u{202f}',
        '\u{205f}', '\u{3000}',
    ];
    for c in spaces {
        if c == '\n' {
            continue;
        }
        let table = format!("h\nh\n{c}wlan0{c}: 0000\n{c}{c}:\n");
        assert_eq!(names(&parse_interfaces(&table)), vec!["wlan0"], "{:?}", c);
    }
}

#[test]
fn other_characters_are_not_trimmed() {
    let others =
        ['\u{0}', '\u{8}', '\u{e}', '\u{1f}', '\u{84}', '\u{86}', '\u{200b}', '\u{feff}', 'é'];
    for c in others {
        let table = format!("h\nh\n{c}wlan0{c}: 0000\n");
        assert_eq!(names(&parse_interfaces(&table)), vec![format!("{c}wlan0{c}")]);
    }
}

#[test]
fn names_need_not_be_ascii() {
    let table = "h\nh\n wlän0 : 0000\n 無線: 0000\n";
    assert_eq!(names(&parse_interfaces(table)), vec!["wlän0", "無線"]);
}

#[test]
fn catalogue_agrees_with_std_string_functions() {
    let tables = [
        "",
        "\n",
        "\n\n",
        "\n\n\n",
        "a",
        "a\nb",
        "a\nb\nc",
        "a\nb\nc\n",
        "a\nb\n:c\n",
        "a\nb\n c : d : e \n\n f\n",
        "a\nb\n\r\n x\r\n y:\r\n",
        "a\nb\n \u{a0}x\u{3000} :1\n\u{2003}:2\n",
        "a\nb\nx\r",
        "a\nb\n:\n::\n :: \nz:",
        SAMPLE,
    ];
    for table in tables {
        assert_eq!(names(&parse_interfaces(table)), by_std(table), "{:?}", table);
    }
}

#[test]
fn as_many_names_as_lines_that_are_not_blank() {
    let table = "h\nh\nwlan0: 0\n\nwlan1: 0\n   \nwlan2: 0\n";
    let found = parse_interfaces(table);
    let entries: Vec<&str> = table.lines().skip(2).filter(|l| !l.trim().is_empty()).collect();
    assert_eq!(found.len(), entries.len());
    assert_eq!(found.len(), 3);
    for (interface, line) in found.iter().zip(entries) {
        let colon = line.find(':').unwrap();
        assert_eq!(interface.name(), line[..colon].trim());
    }
}

#[test]
fn no_listed_name_is_empty() {
    let table = "h\nh\n:\n :\nwlan0:\n\n : :\n";
    for interface in parse_interfaces(table) {
        assert!(!interface.name().is_empty());
    }
}

#[test]
fn file_that_was_read_is_listed() {
    let listed = list_interfaces_from(Ok(String::from(SAMPLE))).unwrap();
    assert_eq!(names(&listed), vec!["wlp3s0", "wlan1"]);
}

#[test]
fn file_with_header_alone_is_no_failure() {
    let listed = list_interfaces_from(Ok(String::from("h\nh\n")));
    assert!(matches!(listed, Ok(found) if found.is_empty()));
}

#[test]
fn file_that_was_not_read_fails_with_its_error() {
    let gone = std::io::Error::from(std::io::ErrorKind::NotFound);
    match list_interfaces_from(Err(gone)) {
        Err(InterfaceListError::Io { io }) => assert_eq!(io.kind(), std::io::ErrorKind::NotFound),
        Ok(_) => panic!("listed interfaces of a file that was not read"),
    }
    let denied = std::io::Error::from_raw_os_error(13);
    match list_interfaces_from(Err(denied)) {
        Err(InterfaceListError::Io { io }) => assert_eq!(io.raw_os_error(), Some(13)),
        Ok(_) => panic!("listed interfaces of a file that was not read"),
    }
}

#[test]
fn io_error_converts_into_list_error() {
    let e = InterfaceListError::from(std::io::Error::from_raw_os_error(2));
    let InterfaceListError::Io { io } = e;
    assert_eq!(io.raw_os_error(), Some(2));
}

#[test]
fn status_file_is_the_kernels() {
    assert_eq!(STATUS_FILE, "/proc/net/wireless");
}

/// A small generator of numbers that look random, the same on every run.
struct Numbers(u64);

impl Numbers {
    fn next(&mut self) -> u64 {
        self.0 ^= self.0 << 13;
        self.0 ^= self.0 >> 7;
        self.0 ^= self.0 << 17;
        self.0
    }

    fn below(&mut self, n: usize) -> usize {
        (self.next() % n as u64) as usize
    }
}

#[test]
fn catalogue_agrees_with_std_on_many_tables() {
    let alphabet =
        ['a', 'w', '0', ' ', ' ', ':', ':', '\n', '\n', '\n', '\r', '\t', 'é', '\u{a0}', '無'];
    let mut numbers = Numbers(0x2545_f491_4f6c_dd1d);
    for _ in 0..20_000 {
        let length = numbers.below(24);
        let table: String = (0..length).map(|_| alphabet[numbers.below(alphabet.len())]).collect();
        assert_eq!(names(&parse_interfaces(&table)), by_std(&table), "{:?}", table);
    }
}
