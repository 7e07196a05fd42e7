use intel4004::fileio::{parse_hex_byte, rom_from_text, rom_from_tokens, DumpPart, LoadError};
use intel4004::i4004emu::CPU;

#[test]
fn hex_bytes() {
    assert_eq!(parse_hex_byte("0A"), Some(10));
    assert_eq!(parse_hex_byte("ff"), Some(255));
    assert_eq!(parse_hex_byte("+1f"), Some(31));
    assert_eq!(parse_hex_byte("00ff"), Some(255));
    assert_eq!(parse_hex_byte("7"), Some(7));
}

#[test]
fn hex_bytes_refused() {
    assert_eq!(parse_hex_byte("100"), None);
    assert_eq!(parse_hex_byte(""), None);
    assert_eq!(parse_hex_byte("+"), None);
    assert_eq!(parse_hex_byte("-1"), None);
    assert_eq!(parse_hex_byte("g"), None);
    assert_eq!(parse_hex_byte("1\r"), None);
    assert_eq!(parse_hex_byte("fff0"), None);
}

#[test]
fn hex_bytes_agree_with_std() {
    for token in ["0", "9", "a", "F", "+0", "10", "ff", "FF", "100", "0001", "", "+", "x", " 1"] {
        assert_eq!(parse_hex_byte(token), u8::from_str_radix(token, 16).ok(), "{}", token);
    }
}

#[test]
fn rom_from_spaces_and_line_feeds() {
    let rom = rom_from_text("0A 1B\nFF").unwrap();
    assert_eq!(rom[0], 0x0A);
    assert_eq!(rom[1], 0x1B);
    assert_eq!(rom[2], 0xFF);
    assert!(rom[3..].iter().all(|&w| w == 0));
}

#[test]
fn trailing_line_feed_gives_an_empty_token() {
    assert_eq!(rom_from_text("0A 1B\n"), Err(LoadError::NotHex { index: 2 }));
}

#[test]
fn example_text_loads() {
    let rom = rom_from_text("D5 F2\n20").unwrap();
    assert_eq!(&rom[..4], &[0xD5, 0xF2, 0x20, 0x00]);
}

#[test]
fn empty_text_is_one_empty_token() {
    assert_eq!(rom_from_text(""), Err(LoadError::NotHex { index: 0 }));
}

#[test]
fn double_space_gives_an_empty_token() {
    assert_eq!(rom_from_text("0A  1B"), Err(LoadError::NotHex { index: 1 }));
}

#[test]
fn first_bad_token_is_reported() {
    assert_eq!(rom_from_text("01 zz 02 yy"), Err(LoadError::NotHex { index: 1 }));
}

#[test]
fn tokens_past_rom_are_not_read() {
    let mut text = vec!["01"; 4096].join(" ");
    text.push_str(" zz");
    let rom = rom_from_text(&text).unwrap();
    assert!(rom.iter().all(|&w| w == 1));
}

#[test]
fn tokens_build_rom_directly() {
    let tokens = vec!["d5".to_string(), "+F2".to_string()];
    let rom = rom_from_tokens(&tokens).unwrap();
    assert_eq!(rom[0], 0xD5);
    assert_eq!(rom[1], 0xF2);
    assert_eq!(rom[2], 0);
    let tokens = vec!["d5".to_string(), "1 2".to_string()];
    assert_eq!(rom_from_tokens(&tokens), Err(LoadError::NotHex { index: 1 }));
}

#[test]
fn loaded_program_runs() {
    let rom = rom_from_text("D5 F2 B3").unwrap();
    let mut cpu = CPU {
        ixr: [0; 16],
        rom,
        rom_io: [0; 16],
        rom_page: 0,
        ram_d: [0; 1024],
        ram_s: [0; 256],
        ram_o: [0; 8],
        ram_bank: 0,
        ram_addr: 0,
        pc: 0,
        stack: [0; 3],
        stack_ptr: 0,
        acc: 0,
        carry: 0,
        test: 0,
        cycle: 0,
    };
    cpu.execute(3);
    assert_eq!(cpu.ixr[3], 6);
    assert_eq!(cpu.acc, 0);
}

#[test]
fn snapshot_parts() {
    let mut cpu = CPU {
        ixr: [0; 16],
        rom: [0; 4096],
        rom_io: [0; 16],
        rom_page: 7,
        ram_d: [0; 1024],
        ram_s: [0; 256],
        ram_o: [0; 8],
        ram_bank: 2,
        ram_addr: 0x31,
        pc: 0,
        stack: [0x1234, 0x0001, 0xFF00],
        stack_ptr: 1,
        acc: 7,
        carry: 1,
        test: 0,
        cycle: 0,
    };
    cpu.ram_d[3] = 9;
    cpu.rom[5] = 0xAB;
    cpu.ram_o[1] = 5;
    let files = cpu.snapshot();
    let parts: Vec<DumpPart> = files.iter().map(|f| f.0).collect();
    assert_eq!(
        parts,
        vec![
            DumpPart::RamData,
            DumpPart::RamStatus,
            DumpPart::RamOut,
            DumpPart::RamAddress,
            DumpPart::RamBank,
            DumpPart::RomData,
            DumpPart::RomIo,
            DumpPart::RomPage,
            DumpPart::StackData,
            DumpPart::StackPointer,
            DumpPart::Accumulator,
            DumpPart::Carry,
        ]
    );
    assert_eq!(files[0].1.len(), 1024);
    assert_eq!(files[0].1[3], 9);
    assert_eq!(files[1].1.len(), 256);
    assert_eq!(files[2].1, vec![0, 5, 0, 0, 0, 0, 0, 0]);
    assert_eq!(files[3].1, vec![0x31]);
    assert_eq!(files[4].1, vec![2]);
    assert_eq!(files[5].1[5], 0xAB);
    assert_eq!(files[6].1.len(), 16);
    assert_eq!(files[7].1, vec![7]);
    assert_eq!(files[8].1, vec![0x34, 0x12, 0x01, 0x00, 0x00, 0xFF]);
    assert_eq!(files[9].1, vec![1]);
    assert_eq!(files[10].1, vec![7]);
    assert_eq!(files[11].1, vec![1]);
}

#[test]
fn dump_directories() {
    assert_eq!(DumpPart::RamData.directory(), "ram/ram_data_char");
    assert_eq!(DumpPart::StackPointer.directory(), "stack/stack_ptr");
    assert_eq!(DumpPart::Carry.directory(), "misc/carry");
    assert_eq!(DumpPart::RamOut.directory(), "ram/ram_out");
    assert_eq!(DumpPart::RomIo.directory(), "rom/rom_io_lines");
    assert_eq!(DumpPart::RomPage.directory(), "rom/rom_page");
}

#[test]
fn snapshot_paths() {
    let mut cpu = CPU {
        ixr: [0; 16],
        rom: [0; 4096],
        rom_io: [0; 16],
        rom_page: 0,
        ram_d: [0; 1024],
        ram_s: [0; 256],
        ram_o: [0; 8],
        ram_bank: 0,
        ram_addr: 0,
        pc: 345,
        stack: [0; 3],
        stack_ptr: 0,
        acc: 0,
        carry: 0,
        test: 0,
        cycle: 12,
    };
    assert_eq!(
        cpu.snapshot_path("out", DumpPart::RamData),
        Some("out/ram/ram_data_char/12_345.log".to_string())
    );
    assert_eq!(cpu.snapshot_path("", DumpPart::RamData), None);
    cpu.cycle = -7;
    cpu.pc = 0;
    assert_eq!(
        cpu.snapshot_path("d", DumpPart::Carry),
        Some("d/misc/carry/-7_0.log".to_string())
    );
}
