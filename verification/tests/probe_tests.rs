use gateway_client::probe::{
    adapter_list_value, contains_chars, cpuinfo_value, disk_id_among, is_space, keyed_quoted_value,
    keyed_value, keyed_word, lines, mac_among, matches_at, same_chars, strip_char, table_value,
    table_value_other_than, trim_chars, trimmed_value, trimmed_value_other_than, words,
    NetInterface,
};

fn chars(s: &str) -> Vec<char> {
    s.chars().collect()
}

fn text(v: &Vec<char>) -> String {
    v.iter().collect()
}

fn texts(v: &Vec<Vec<char>>) -> Vec<String> {
    v.iter().map(text).collect()
}

const SAMPLES: [&str; 16] = [
    "",
    " ",
    "a",
    "  a b  ",
    "\t\u{a0}x\u{3000}\n",
    "a\nb",
    "a\r\nb\r\n",
    "a\r",
    "\n",
    "\n\n",
    "x\r\r\ny",
    "one\n\ntwo\n",
    "\u{2003}wide\u{2003}",
    "k: v : w",
    "\"q\"",
    "  \r\n header\r\n  value  \r\n",
];

#[test]
fn white_space_is_what_std_calls_white_space() {
    let mut n: u32 = 0;
    while n <= 0x10ffff {
        if let Some(c) = char::from_u32(n) {
            assert_eq!(is_space(c), c.is_whitespace(), "U+{:04X}", n);
        }
        n += 1;
    }
}

#[test]
fn trim_agrees_with_std() {
    for s in SAMPLES {
        assert_eq!(text(&trim_chars(&chars(s))), s.trim(), "{:?}", s);
    }
    assert_eq!(text(&trim_chars(&chars("  a b  "))), "a b");
}

#[test]
fn lines_agree_with_std() {
    for s in SAMPLES {
        let want: Vec<String> = s.lines().map(|l| l.to_string()).collect();
        assert_eq!(texts(&lines(&chars(s))), want, "{:?}", s);
    }
    assert_eq!(texts(&lines(&chars("a\r\nb\r"))), vec!["a".to_string(), "b\r".to_string()]);
    assert_eq!(texts(&lines(&chars("\n"))), vec![String::new()]);
    assert!(lines(&chars("")).is_empty());
}

#[test]
fn words_agree_with_std() {
    for s in SAMPLES {
        let want: Vec<String> = s.split_whitespace().map(|l| l.to_string()).collect();
        assert_eq!(texts(&words(&chars(s))), want, "{:?}", s);
    }
    assert_eq!(texts(&words(&chars("\tether  aa:bb  x"))), vec!["ether", "aa:bb", "x"]);
}

#[test]
fn strip_char_agrees_with_std() {
    for s in ["", "\"", "\"\"", "\"a\"", "\"\"a\"b\"\"", "a\"", "ab"] {
        assert_eq!(text(&strip_char(&chars(s), '"')), s.trim_matches('"'), "{:?}", s);
    }
}

#[test]
fn substring_search_agrees_with_std() {
    let hays = ["", "a", "model name", "xmodel namey", "model nam", "aab", "Serial", " Serial"];
    let needles = ["", "a", "ab", "model name", "Serial", "b"];
    for h in hays {
        for n in needles {
            assert_eq!(contains_chars(&chars(h), &chars(n)), h.contains(n), "{:?} {:?}", h, n);
            assert_eq!(matches_at(&chars(h), 0, &chars(n)), h.starts_with(n), "{:?} {:?}", h, n);
            assert_eq!(same_chars(&chars(h), &chars(n)), h == n, "{:?} {:?}", h, n);
        }
    }
    assert!(matches_at(&chars("abc"), 1, &chars("bc")));
    assert!(!matches_at(&chars("abc"), 2, &chars("bc")));
    assert!(matches_at(&chars("abc"), 3, &chars("")));
    assert!(!matches_at(&chars("abc"), 4, &chars("")));
}

#[test]
fn bare_value_is_trimmed() {
    assert_eq!(trimmed_value("  Apple M1 Pro\n"), Some("Apple M1 Pro".to_string()));
    assert_eq!(trimmed_value(" \n\t"), None);
    assert_eq!(trimmed_value(""), None);
    assert_eq!(trimmed_value_other_than("unknown\n", "unknown"), None);
    assert_eq!(trimmed_value_other_than("R58M\n", "unknown"), Some("R58M".to_string()));
    assert_eq!(trimmed_value_other_than("", "unknown"), None);
}

#[test]
fn table_value_skips_the_header_and_blank_rows() {
    let out = "ProcessorId      \r\n\r\nBFEBFBFF000906EA  \r\n\r\nSECOND\r\n";
    assert_eq!(table_value(out), Some("BFEBFBFF000906EA".to_string()));
    assert_eq!(table_value("ProcessorId\r\n"), None);
    assert_eq!(table_value("OnlyHeader"), None);
    assert_eq!(table_value(""), None);
    assert_eq!(table_value("\nvalue"), Some("value".to_string()));
}

#[test]
fn table_value_passes_over_the_placeholder() {
    let out = "SerialNumber\r\nTo be filled by O.E.M.\r\n\r\nPF12345\r\n";
    assert_eq!(table_value_other_than(out, "To be filled by O.E.M."), Some("PF12345".to_string()));
    let only = "SerialNumber\r\n  To be filled by O.E.M.  \r\n";
    assert_eq!(table_value_other_than(only, "To be filled by O.E.M."), None);
    assert_eq!(table_value(only), Some("To be filled by O.E.M.".to_string()));
}

#[test]
fn cpuinfo_gives_the_first_serial_or_model_line() {
    let content = "processor\t: 0\nvendor_id\t: GenuineIntel\nmodel name\t: Intel(R) Core(TM) i7 : x\nSerial\t\t: 00000000abcdef\n";
    assert_eq!(cpuinfo_value(content), Some("Intel(R) Core(TM) i7".to_string()));
    assert_eq!(cpuinfo_value("Serial\t: 0001\nmodel name: m\n"), Some("0001".to_string()));
    assert_eq!(cpuinfo_value("model name\nSerial: s\n"), Some("s".to_string()));
    assert_eq!(cpuinfo_value("model name:\n"), Some(String::new()));
    assert_eq!(cpuinfo_value(" Serial: not at the start\n"), None);
    assert_eq!(cpuinfo_value("processor: 0\n"), None);
    assert_eq!(cpuinfo_value(""), None);
}

#[test]
fn keyed_value_reads_after_the_colon() {
    let report = "SATA:\n\n    Model: X\n      Serial Number: S3Z9NB0K  \n      Serial Number: other\n";
    assert_eq!(keyed_value(report, "Serial Number"), Some("S3Z9NB0K".to_string()));
    assert_eq!(keyed_value("Serial Number\nSerial Number: b", "Serial Number"), Some("b".to_string()));
    assert_eq!(keyed_value("Model: X\n", "Serial Number"), None);
}

#[test]
fn keyed_quoted_value_reads_between_the_first_two_quotes() {
    let listing = "    | \"IOPlatformUUID\" = \"A\"\n    | \"IOPlatformSerialNumber\" = \"C02XL0\"\n";
    assert_eq!(
        keyed_quoted_value(listing, "IOPlatformSerialNumber"),
        Some("IOPlatformSerialNumber".to_string())
    );
    assert_eq!(
        keyed_quoted_value("IOPlatformSerialNumber = \"C02XL0\"\n", "IOPlatformSerialNumber"),
        Some("C02XL0".to_string())
    );
    assert_eq!(keyed_quoted_value("IOPlatformSerialNumber \"open\n", "IOPlatformSerialNumber"), None);
    assert_eq!(keyed_quoted_value("nothing \"a\" here\n", "IOPlatformSerialNumber"), None);
}

#[test]
fn keyed_word_reads_the_second_word() {
    let report = "en0: flags=8863<UP>\n\tether a4:83:e7:12:34:56 \n\tinet 10.0.0.2\n";
    assert_eq!(keyed_word(report, "ether"), Some("a4:83:e7:12:34:56".to_string()));
    assert_eq!(keyed_word("ether\nzz ether yy\n", "ether"), Some("ether".to_string()));
    assert_eq!(keyed_word("ether\n", "ether"), None);
    assert_eq!(keyed_word("", "ether"), None);
}

#[test]
fn adapter_list_gives_the_first_address() {
    let csv = "\"N/A\",\"Hardware not present\"\r\n\"00-1A-2B-3C-4D-5E\",\"\\Device\\Tcpip_{X}\"\r\n\"11-22-33-44-55-66\",\"y\"\r\n";
    assert_eq!(adapter_list_value(csv), Some("00-1A-2B-3C-4D-5E".to_string()));
    assert_eq!(adapter_list_value("\r\n  \"AA-BB\"  ,x\r\n"), Some("AA-BB".to_string()));
    assert_eq!(adapter_list_value("\"\"\r\nplain,aa-bb\r\n"), None);
    assert_eq!(adapter_list_value(""), None);
}

#[test]
fn disk_id_is_the_first_ata_or_nvme_name() {
    let names = vec![
        "dm-name-root".to_string(),
        "wwn-0x5000".to_string(),
        "nvme-Samsung_SSD_970".to_string(),
        "ata-WDC_WD10".to_string(),
    ];
    assert_eq!(disk_id_among(&names), Some("nvme-Samsung_SSD_970".to_string()));
    assert_eq!(disk_id_among(&vec!["xata-1".to_string(), "nvme".to_string()]), None);
    assert_eq!(disk_id_among(&vec!["ata-".to_string()]), Some("ata-".to_string()));
    assert_eq!(disk_id_among(&Vec::new()), None);
}

#[test]
fn mac_is_the_first_interface_that_counts() {
    let list = vec![
        NetInterface { name: "lo".to_string(), address: Some("aa:aa:aa:aa:aa:aa\n".to_string()) },
        NetInterface { name: "tun0".to_string(), address: None },
        NetInterface { name: "dummy0".to_string(), address: Some("00:00:00:00:00:00\n".to_string()) },
        NetInterface { name: "blank".to_string(), address: Some("\n".to_string()) },
        NetInterface { name: "eth0".to_string(), address: Some("52:54:00:12:34:56\n".to_string()) },
        NetInterface { name: "wlan0".to_string(), address: Some("11:11:11:11:11:11\n".to_string()) },
    ];
    assert_eq!(mac_among(&list), Some("52:54:00:12:34:56".to_string()));
    assert_eq!(mac_among(&list[..4].to_vec()), None);
    assert_eq!(mac_among(&Vec::new()), None);
}
