use dexhunter::memory::{parse_line, MapsError, MemoryMap, ReadError, RemoteMemory};
use dexhunter::text::{blank, chars_of, parse_hex, push_decimal};

const TABLE: &str = "\
00400000-00452000 r-xp 00000000 08:02 173521                             /usr/bin/dbus-daemon
00651000-00652000 r--p 00051000 08:02 173521                             /usr/bin/dbus-daemon
00e03000-00e24000 rw-p 00000000 00:00 0                                  [heap]
7f2c6ff8c000-7f2c7078c000 rw-p 00000000 00:00 0 
7ffc4eb7d000-7ffc4eb7f000 r-xp 00000000 00:00 0                          [vdso]
";

#[test]
fn table_gives_one_region_for_each_line() {
    let memory = RemoteMemory::new(1);
    let regions = memory.read_maps(TABLE).unwrap();
    assert_eq!(regions.len(), 5);
    assert_eq!(regions.len(), TABLE.lines().filter(|l| !l.is_empty()).count());
    assert_eq!(regions[0].address, (0x00400000, 0x00452000));
    assert_eq!(regions[0].perms, "r-xp");
    assert_eq!(regions[0].filepath.as_deref(), Some("/usr/bin/dbus-daemon"));
    assert_eq!(regions[2].filepath.as_deref(), Some("[heap]"));
    assert_eq!(regions[3].address, (0x7f2c6ff8c000, 0x7f2c7078c000));
    assert_eq!(regions[3].perms, "rw-p");
    assert_eq!(regions[3].filepath, None);
    assert_eq!(regions[4].filepath.as_deref(), Some("[vdso]"));
}

#[test]
fn regions_come_in_table_order() {
    let memory = RemoteMemory::new(1);
    let regions = memory.read_maps(TABLE).unwrap();
    for pair in regions.windows(2) {
        assert!(pair[0].start() <= pair[1].start());
    }
    let swapped = "2000-3000 r--p 0 0:0 0 \n1000-2000 r--p 0 0:0 0 \n";
    let regions = memory.read_maps(swapped).unwrap();
    assert_eq!(regions[0].address, (0x2000, 0x3000));
    assert_eq!(regions[1].address, (0x1000, 0x2000));
}

#[test]
fn table_without_final_line_feed() {
    let memory = RemoteMemory::new(1);
    let regions = memory.read_maps("1000-2000 r--p 0 0:0 0 /a\n2000-3000 rw-p 0 0:0 0 /b").unwrap();
    assert_eq!(regions.len(), 2);
    assert_eq!(regions[1].filepath.as_deref(), Some("/b"));
}

#[test]
fn table_with_carriage_returns() {
    let memory = RemoteMemory::new(1);
    let regions = memory.read_maps("1000-2000 r--p 0 0:0 0 /a\r\n2000-3000 rw-p 0 0:0 0 /b\r\n").unwrap();
    assert_eq!(regions.len(), 2);
    assert_eq!(regions[0].filepath.as_deref(), Some("/a"));
    assert_eq!(regions[1].filepath.as_deref(), Some("/b"));
}

#[test]
fn empty_table_has_no_regions() {
    let memory = RemoteMemory::new(1);
    assert_eq!(memory.read_maps("").unwrap().len(), 0);
}

#[test]
fn malformed_line_fails_the_table() {
    let memory = RemoteMemory::new(1);
    let table = "1000-2000 r--p 0 0:0 0 /a\nnot a region\n2000-3000 rw-p 0 0:0 0 /b\n";
    assert_eq!(memory.read_maps(table).unwrap_err(), MapsError { line: 1 });
    assert_eq!(memory.read_maps("\n").unwrap_err(), MapsError { line: 0 });
    let table = "1000-2000 r--p 0 0:0 0 /a\n\n2000-3000 rw-p 0 0:0 0 /b\n";
    assert_eq!(memory.read_maps(table).unwrap_err(), MapsError { line: 1 });
    let table = "1000-2000 r--p 0 0:0 0 /a\n2000-3000 rw-p 0 0:0 0 /b\n3000-";
    assert_eq!(memory.read_maps(table).unwrap_err(), MapsError { line: 2 });
}

#[test]
fn line_with_path() {
    let m = parse_line("7f00-7fff r-xp 00001000 fd:01 42   /system/lib/libc.so").unwrap();
    assert_eq!(m.address, (0x7f00, 0x7fff));
    assert_eq!(m.perms, "r-xp");
    assert_eq!(m.filepath.as_deref(), Some("/system/lib/libc.so"));
    assert_eq!(m.address(), 0x7f00);
    assert_eq!(m.start(), 0x7f00);
    assert_eq!(m.size(), 0xff);
    assert_eq!(m.name(), "/system/lib/libc.so");
}

#[test]
fn line_with_spaces_in_path() {
    let m = parse_line("7f00-7fff r-xp 00001000 fd:01 42 /data/app/base.apk (deleted) ").unwrap();
    assert_eq!(m.filepath.as_deref(), Some("/data/app/base.apk (deleted) "));
}

#[test]
fn line_of_anonymous_memory() {
    let m = parse_line("7f00-7fff rw-p 00000000 00:00 0 ").unwrap();
    assert_eq!(m.filepath, None);
    assert_eq!(m.name(), "[anonymous memory]");
    let m = parse_line("7f00-7fff rw-p 00000000 00:00 0 \t  ").unwrap();
    assert_eq!(m.filepath, None);
}

#[test]
fn line_with_upper_case_and_full_width_addresses() {
    let m = parse_line("ABCDEF-abcdf0 r--p 0 0:0 0 ").unwrap();
    assert_eq!(m.address, (0xabcdef, 0xabcdf0));
    let m = parse_line("0-ffffffffffffffff r--p 0 0:0 0 ").unwrap();
    assert_eq!(m.address, (0, u64::MAX));
    assert_eq!(m.size(), u64::MAX);
    let m = parse_line("00000000000000001-2 r--p 0 0:0 0 ").unwrap();
    assert_eq!(m.address, (1, 2));
}

#[test]
fn line_without_its_shape_is_refused() {
    assert!(parse_line("").is_none());
    assert!(parse_line("7f00-7fff").is_none());
    assert!(parse_line("7f00-7fff rw-p 00000000 00:00 0").is_none());
    assert!(parse_line("7f00-7fff rw-p 00000000 00:00").is_none());
    assert!(parse_line("7f00-7fff  rw-p 00000000 00:00 0 ").is_none());
    assert!(parse_line("7f00-7fff rw-p  00000000 00:00 0 ").is_none());
    assert!(parse_line("7f00-7fff\trw-p 00000000 00:00 0 ").is_none());
    assert!(parse_line(" 7f00-7fff rw-p 00000000 00:00 0 ").is_none());
    assert!(parse_line("7f007fff rw-p 00000000 00:00 0 ").is_none());
    assert!(parse_line("-7fff rw-p 00000000 00:00 0 ").is_none());
    assert!(parse_line("7f00- rw-p 00000000 00:00 0 ").is_none());
    assert!(parse_line("7f00-7f-ff rw-p 00000000 00:00 0 ").is_none());
    assert!(parse_line("7g00-7fff rw-p 00000000 00:00 0 ").is_none());
    assert!(parse_line("+7f00-7fff rw-p 00000000 00:00 0 ").is_none());
    assert!(parse_line("0x7f00-0x7fff rw-p 00000000 00:00 0 ").is_none());
}

#[test]
fn line_with_addresses_out_of_order_is_refused() {
    assert!(parse_line("7fff-7f00 rw-p 00000000 00:00 0 ").is_none());
    assert!(parse_line("7f00-7f00 rw-p 00000000 00:00 0 ").is_none());
    assert!(parse_line("7f00-7f01 rw-p 00000000 00:00 0 ").is_some());
}

#[test]
fn line_with_address_over_64_bits_is_refused() {
    assert!(parse_line("0-10000000000000000 rw-p 00000000 00:00 0 ").is_none());
    assert!(parse_line("0-fffffffffffffffff rw-p 00000000 00:00 0 ").is_none());
}

#[test]
fn hexadecimal_numerals() {
    let v = chars_of("x1aF-");
    assert_eq!(parse_hex(&v, 1, 4), Some(0x1af));
    assert_eq!(parse_hex(&v, 1, 2), Some(1));
    assert_eq!(parse_hex(&v, 1, 1), None);
    assert_eq!(parse_hex(&v, 0, 4), None);
    assert_eq!(parse_hex(&v, 1, 5), None);
    let v = chars_of("ffffffffffffffff");
    assert_eq!(parse_hex(&v, 0, 16), Some(u64::MAX));
    let v = chars_of("10000000000000000");
    assert_eq!(parse_hex(&v, 0, 17), None);
    assert_eq!(parse_hex(&v, 1, 17), Some(0));
}

#[test]
fn decimal_numerals() {
    for (n, text) in [(0usize, "0"), (7, "7"), (9, "9"), (10, "10"), (99, "99"), (100, "100"), (4096, "4096")] {
        let mut s = String::from("n=");
        push_decimal(&mut s, n);
        assert_eq!(s, format!("n={}", text));
    }
    let mut s = String::new();
    push_decimal(&mut s, usize::MAX);
    assert_eq!(s, format!("{}", usize::MAX));
}

#[test]
fn characters_of_a_text() {
    assert_eq!(chars_of("a\u{e9}\u{4e2d}z"), vec!['a', '\u{e9}', '\u{4e2d}', 'z']);
    assert_eq!(chars_of(""), Vec::<char>::new());
}

#[test]
fn white_space_is_what_unicode_says() {
    for code in 0u32..0x11000 {
        if let Some(c) = char::from_u32(code) {
            assert_eq!(blank(c), c.is_whitespace(), "{:x}", code);
        }
    }
}

#[test]
fn name_of_a_region() {
    let named = MemoryMap {
        address: (0x1000, 0x2000),
        perms: String::from("r--p"),
        filepath: Some(String::from("/data/app/base.apk")),
    };
    assert_eq!(named.name(), "/data/app/base.apk");
    let anonymous = MemoryMap { address: (0x1000, 0x2000), perms: String::from("rw-p"), filepath: None };
    assert_eq!(anonymous.name(), "[anonymous memory]");
    assert_eq!(anonymous.size(), 0x1000);
    assert_eq!(anonymous.address(), 0x1000);
    assert_eq!(anonymous.start(), 0x1000);
}

#[test]
fn path_of_the_region_table() {
    assert_eq!(RemoteMemory::new(1234).maps_path(), "/proc/1234/maps");
    assert_eq!(RemoteMemory::new(0).maps_path(), "/proc/0/maps");
    assert_eq!(RemoteMemory::new(-7).maps_path(), "/proc/-7/maps");
    assert_eq!(RemoteMemory::new(i32::MAX).maps_path(), "/proc/2147483647/maps");
    assert_eq!(RemoteMemory::new(i32::MIN).maps_path(), "/proc/-2147483648/maps");
    assert_eq!(RemoteMemory::new(42).pid(), 42);
}

#[test]
fn complete_read_is_handed_back() {
    let memory = RemoteMemory::new(1);
    let buffer: Vec<u8> = (0..112u32).map(|i| i as u8).collect();
    assert_eq!(memory.read_memory(112, buffer.clone(), Ok(112)), Ok(buffer));
    assert_eq!(memory.read_memory(0, Vec::new(), Ok(0)), Ok(Vec::new()));
}

#[test]
fn short_read_fails() {
    let memory = RemoteMemory::new(1);
    assert_eq!(
        memory.read_memory(112, vec![0u8; 112], Ok(100)),
        Err(ReadError::Short { wanted: 112, got: 100 })
    );
    assert_eq!(
        memory.read_memory(112, vec![0u8; 112], Ok(0)),
        Err(ReadError::Short { wanted: 112, got: 0 })
    );
    assert_eq!(
        memory.read_memory(112, vec![0u8; 100], Ok(112)),
        Err(ReadError::Short { wanted: 112, got: 112 })
    );
}

#[test]
fn refused_read_fails() {
    let memory = RemoteMemory::new(1);
    assert_eq!(memory.read_memory(112, vec![0u8; 112], Err(3)), Err(ReadError::Os(3)));
    assert_eq!(memory.read_memory(112, vec![0u8; 112], Err(14)), Err(ReadError::Os(14)));
}

#[test]
fn hexadecimal_numerals_are_written_in_lower_case() {
    for (n, text) in [(0u64, "0"), (9, "9"), (10, "a"), (15, "f"), (16, "10"), (0xABCDEF, "abcdef")] {
        let mut s = String::from("0x");
        dexhunter::text::push_hex(&mut s, n);
        assert_eq!(s, format!("0x{}", text));
    }
    let mut s = String::new();
    dexhunter::text::push_hex(&mut s, u64::MAX);
    assert_eq!(s, "ffffffffffffffff");
}

#[test]
fn written_numerals_are_read_back() {
    for n in [0u64, 1, 0x7f00, 0xdead_beef, u64::MAX] {
        let mut s = String::new();
        dexhunter::text::push_hex(&mut s, n);
        let v = chars_of(&s);
        assert_eq!(parse_hex(&v, 0, v.len()), Some(n));
    }
}
