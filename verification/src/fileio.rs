//! Settings, and the text format of a ROM image: hexadecimal bytes
//! separated by single spaces or line feeds.
use vstd::prelude::*;
use vstd::slice::slice_to_vec;
use crate::i4004emu::CPU;
use crate::machine::CpuState;
use crate::separator::{alternation_of_two_chars, compile_splitter, split, split_at_chars};

verus! {

/// The settings file: one `config` table.
#[derive(Debug, Default)]
pub struct Data {
    pub config: Config,
}

/// The emulator's settings.
#[derive(Debug, Default)]
pub struct Config {
    pub step: bool,
    pub filepath: String,
    pub maxcycles: i32,
    pub outputpath: String,
}

/// Why a ROM image text was refused.
#[derive(Debug, Clone, Copy, PartialEq, Eq)]
pub enum LoadError {
    /// The token at this position (counted from 0) is not a hexadecimal byte.
    NotHex { index: usize },
}

/// The value of a hexadecimal digit.
pub open spec fn hex_digit_value(c: char) -> Option<int> {
    if '0' <= c && c <= '9' {
        Some(c as int - '0' as int)
    } else if 'a' <= c && c <= 'f' {
        Some(c as int - 'a' as int + 10)
    } else if 'A' <= c && c <= 'F' {
        Some(c as int - 'A' as int + 10)
    } else {
        None
    }
}

/// The value of a string of hexadecimal digits (0 for the empty string).
pub open spec fn hex_value(digits: Seq<char>) -> Option<int>
    decreases digits.len(),
{
    if digits.len() == 0 {
        Some(0)
    } else {
        match (hex_value(digits.drop_last()), hex_digit_value(digits.last())) {
            (Some(v), Some(d)) => Some(16 * v + d),
            _ => None,
        }
    }
}

/// The digits of a token: what follows a leading `+`, or the whole token.
pub open spec fn unsigned_digits(token: Seq<char>) -> Seq<char> {
    if token.len() > 0 && token[0] == '+' {
        token.drop_first()
    } else {
        token
    }
}

/// The byte a token denotes in base 16, as `u8::from_str_radix(token, 16)`
/// reads it: an optional `+`, then one or more hexadecimal digits of
/// either case, with a value below 256.
pub open spec fn hex_byte(token: Seq<char>) -> Option<u8> {
    let digits = unsigned_digits(token);
    if digits.len() == 0 {
        None
    } else {
        match hex_value(digits) {
            Some(v) => if v < 256 {
                Some(v as u8)
            } else {
                None
            },
            None => None,
        }
    }
}

/// Whether the first `n` tokens (or all, if fewer) are hexadecimal bytes.
pub open spec fn tokens_are_hex(tokens: Seq<Seq<char>>, n: int) -> bool {
    forall|i: int| 0 <= i < n && i < tokens.len() ==> (#[trigger] hex_byte(tokens[i])) is Some
}

/// The ROM image of a token list: token `i` is word `i`; words past the
/// last token are 0; tokens past the end of ROM are ignored. `Err(i)`: token
/// `i` is the first that is not a hexadecimal byte.
pub open spec fn rom_image(tokens: Seq<Seq<char>>) -> Result<Seq<u8>, int> {
    if tokens_are_hex(tokens, 4096) {
        Ok(
            Seq::new(
                4096,
                |i: int|
                    if i < tokens.len() {
                        hex_byte(tokens[i])->0
                    } else {
                        0
                    },
            ),
        )
    } else {
        let i = choose|i: int|
            0 <= i < 4096 && i < tokens.len() && hex_byte(tokens[i]) is None && tokens_are_hex(
                tokens,
                i,
            );
        Err(i)
    }
}

/// The value of a hexadecimal digit character.
fn hex_digit(c: char) -> (d: Option<u32>)
    ensures
        match hex_digit_value(c) {
            Some(v) => d == Some(v as u32),
            None => d is None,
        },
{
    if '0' <= c && c <= '9' {
        Some(c as u32 - '0' as u32)
    } else if 'a' <= c && c <= 'f' {
        Some(c as u32 - 'a' as u32 + 10)
    } else if 'A' <= c && c <= 'F' {
        Some(c as u32 - 'A' as u32 + 10)
    } else {
        None
    }
}

/// Reads a token as a byte in base 16, as `u8::from_str_radix(token, 16)` does.
pub fn parse_hex_byte(token: &str) -> (b: Option<u8>)
    ensures
        b == hex_byte(token@),
{
    let len = token.unicode_len();
    let mut start: usize = 0;
    if len > 0 && token.get_char(0) == '+' {
        start = 1;
    }
    let ghost digits = unsigned_digits(token@);
    assert(digits =~= token@.subrange(start as int, len as int));
    if start == len {
        return None;
    }
    // The value read so far, held at 256 once it is 256 or more.
    let mut value: u32 = 0;
    let mut i: usize = start;
    assert(token@.subrange(start as int, start as int) =~= Seq::<char>::empty());
    while i < len
        invariant
            start <= i <= len,
            len == token@.len(),
            digits =~= token@.subrange(start as int, len as int),
            digits == unsigned_digits(token@),
            hex_value(token@.subrange(start as int, i as int)) is Some,
            value == if hex_value(token@.subrange(start as int, i as int))->0 < 256 {
                hex_value(token@.subrange(start as int, i as int))->0
            } else {
                256
            },
        decreases len - i,
    {
        let c = token.get_char(i);
        let ghost prefix = token@.subrange(start as int, i as int + 1);
        assert(prefix.drop_last() =~= token@.subrange(start as int, i as int));
        assert(prefix.last() == c);
        match hex_digit(c) {
            Some(d) => {
                value = value * 16 + d;
                if value > 256 {
                    value = 256;
                }
            },
            None => {
                proof {
                    lemma_hex_value_invalid_suffix(digits, i - start);
                }
                return None;
            },
        }
        i += 1;
    }
    assert(token@.subrange(start as int, i as int) =~= digits);
    if value < 256 {
        Some(value as u8)
    } else {
        None
    }
}

/// Builds a ROM image from its tokens: token `i` gives word `i`, words past
/// the last token are 0, and tokens past the end of ROM are not read.
pub fn rom_from_tokens(tokens: &Vec<String>) -> (rom: Result<[u8; 4096], LoadError>)
    ensures
        match rom_image(tokens@.map_values(|t: String| t@)) {
            Ok(image) => rom matches Ok(r) && r@ == image,
            Err(i) => rom == Err::<[u8; 4096], LoadError>(LoadError::NotHex { index: i as usize }),
        },
{
    let ghost toks = tokens@.map_values(|t: String| t@);
    let mut output: [u8; 4096] = [0; 4096];
    let mut i: usize = 0;
    while i < 4096
        invariant
            i <= 4096,
            toks == tokens@.map_values(|t: String| t@),
            tokens_are_hex(toks, i as int),
            forall|j: int|
                0 <= j < i ==> output@[j] == (if j < toks.len() {
                    hex_byte(toks[j])->0
                } else {
                    0
                }),
        decreases 4096 - i,
    {
        if i < tokens.len() {
            match parse_hex_byte(tokens[i].as_str()) {
                Some(b) => {
                    output[i] = b;
                },
                None => {
                    proof {
                        assert(toks[i as int] == tokens@[i as int]@);
                        assert(!tokens_are_hex(toks, 4096));
                        let k = choose|k: int|
                            0 <= k < 4096 && k < toks.len() && hex_byte(toks[k]) is None
                                && tokens_are_hex(toks, k);
                        if k < i {
                            assert(hex_byte(toks[k]) is Some);
                        } else if k > i {
                            assert(hex_byte(toks[i as int]) is Some);
                        }
                    }
                    return Err(LoadError::NotHex { index: i });
                },
            }
        } else {
            output[i] = 0;
        }
        i += 1;
    }
    assert(output@ =~= rom_image(toks)->Ok_0);
    Ok(output)
}

/// Reads a ROM image text: hexadecimal bytes separated by single spaces or
/// line feeds (split with the `regex` crate), as `rom_from_tokens` builds it.
pub fn rom_from_text(text: &str) -> (rom: Result<[u8; 4096], LoadError>)
    ensures
        match rom_image(split_at_chars(text@, ' ', '\n')) {
            Ok(image) => rom matches Ok(r) && r@ == image,
            Err(i) => rom == Err::<[u8; 4096], LoadError>(LoadError::NotHex { index: i as usize }),
        },
{
    let pattern = r" |\n";
    proof {
        reveal_strlit(r" |\n");
        assert(pattern@.subrange(0, 1) =~= seq![' ']);
        assert(pattern@.subrange(2, 4) =~= seq!['\\', 'n']);
        assert(alternation_of_two_chars(pattern@) == Some((' ', '\n')));
    }
    let splitter = match compile_splitter(pattern) {
        Ok(s) => s,
        Err(_) => {
            // A two-character alternation always compiles.
            assert(false);
            return Err(LoadError::NotHex { index: 0 });
        },
    };
    let tokens = split(&splitter, text);
    rom_from_tokens(&tokens)
}

/// A part of the machine state that a snapshot writes to a file of its own.
#[derive(Debug, Clone, Copy, PartialEq, Eq)]
pub enum DumpPart {
    RamData,
    RamStatus,
    RamOut,
    RamAddress,
    RamBank,
    RomData,
    RomIo,
    RomPage,
    StackData,
    StackPointer,
    Accumulator,
    Carry,
}

/// The directory, below the output directory, that holds a part's files.
pub open spec fn dump_directory(part: DumpPart) -> Seq<char> {
    match part {
        DumpPart::RamData => "ram/ram_data_char"@,
        DumpPart::RamStatus => "ram/ram_status_char"@,
        DumpPart::RamOut => "ram/ram_out"@,
        DumpPart::RamAddress => "ram/ram_address_reg"@,
        DumpPart::RamBank => "ram/ram_bank"@,
        DumpPart::RomData => "rom/rom_data"@,
        DumpPart::RomIo => "rom/rom_io_lines"@,
        DumpPart::RomPage => "rom/rom_page"@,
        DumpPart::StackData => "stack/stack_data"@,
        DumpPart::StackPointer => "stack/stack_ptr"@,
        DumpPart::Accumulator => "misc/accumulator"@,
        DumpPart::Carry => "misc/carry"@,
    }
}

impl DumpPart {
    /// The directory, below the output directory, that holds this part's files.
    pub fn directory(&self) -> (d: &'static str)
        ensures
            d@ == dump_directory(*self),
    {
        match self {
            DumpPart::RamData => "ram/ram_data_char",
            DumpPart::RamStatus => "ram/ram_status_char",
            DumpPart::RamOut => "ram/ram_out",
            DumpPart::RamAddress => "ram/ram_address_reg",
            DumpPart::RamBank => "ram/ram_bank",
            DumpPart::RomData => "rom/rom_data",
            DumpPart::RomIo => "rom/rom_io_lines",
            DumpPart::RomPage => "rom/rom_page",
            DumpPart::StackData => "stack/stack_data",
            DumpPart::StackPointer => "stack/stack_ptr",
            DumpPart::Accumulator => "misc/accumulator",
            DumpPart::Carry => "misc/carry",
        }
    }
}

/// The little-endian bytes of a 16-bit value.
pub open spec fn le_bytes(x: u16) -> Seq<u8> {
    seq![(x % 256) as u8, (x / 256) as u8]
}

/// What a snapshot of the machine holds, part by part: the RAM data and
/// status characters, the RAM output ports, the RAM address register, the
/// RAM bank, the ROM, the ROM I/O lines, the ROM page, the stack (each level
/// little endian), the stack pointer, the accumulator and the carry.
pub open spec fn snapshot_contents(s: CpuState) -> Seq<(DumpPart, Seq<u8>)> {
    seq![
        (DumpPart::RamData, s.ram_d),
        (DumpPart::RamStatus, s.ram_s),
        (DumpPart::RamOut, s.ram_o),
        (DumpPart::RamAddress, seq![s.ram_addr]),
        (DumpPart::RamBank, seq![s.ram_bank]),
        (DumpPart::RomData, s.rom),
        (DumpPart::RomIo, s.rom_io),
        (DumpPart::RomPage, seq![s.rom_page]),
        (DumpPart::StackData, le_bytes(s.stack[0]) + le_bytes(s.stack[1]) + le_bytes(s.stack[2])),
        (DumpPart::StackPointer, seq![s.stack_ptr]),
        (DumpPart::Accumulator, seq![s.acc]),
        (DumpPart::Carry, seq![s.carry]),
    ]
}

/// The little-endian bytes of a 16-bit value.
fn push_le_bytes(out: &mut Vec<u8>, x: u16)
    ensures
        final(out)@ == old(out)@ + le_bytes(x),
{
    out.push((x % 256) as u8);
    out.push((x / 256) as u8);
}

impl CPU {
    /// The files a snapshot of the machine writes: for each part, its
    /// contents as bytes.
    pub fn snapshot(&self) -> (files: Vec<(DumpPart, Vec<u8>)>)
        ensures
            files@.map_values(|f: (DumpPart, Vec<u8>)| (f.0, f.1@)) == snapshot_contents(self@),
    {
        let mut files: Vec<(DumpPart, Vec<u8>)> = Vec::new();
        files.push((DumpPart::RamData, slice_to_vec(self.ram_d.as_slice())));
        files.push((DumpPart::RamStatus, slice_to_vec(self.ram_s.as_slice())));
        files.push((DumpPart::RamOut, slice_to_vec(self.ram_o.as_slice())));
        files.push((DumpPart::RamAddress, vec![self.ram_addr]));
        files.push((DumpPart::RamBank, vec![self.ram_bank]));
        files.push((DumpPart::RomData, slice_to_vec(self.rom.as_slice())));
        files.push((DumpPart::RomIo, slice_to_vec(self.rom_io.as_slice())));
        files.push((DumpPart::RomPage, vec![self.rom_page]));
        let mut stack_bytes: Vec<u8> = Vec::new();
        push_le_bytes(&mut stack_bytes, self.stack[0]);
        push_le_bytes(&mut stack_bytes, self.stack[1]);
        push_le_bytes(&mut stack_bytes, self.stack[2]);
        files.push((DumpPart::StackData, stack_bytes));
        files.push((DumpPart::StackPointer, vec![self.stack_ptr]));
        files.push((DumpPart::Accumulator, vec![self.acc]));
        files.push((DumpPart::Carry, vec![self.carry]));
        proof {
            let mapped = files@.map_values(|f: (DumpPart, Vec<u8>)| (f.0, f.1@));
            let expected = snapshot_contents(self@);
            assert(files@[3].1@ =~= seq![self.ram_addr]);
            assert(files@[4].1@ =~= seq![self.ram_bank]);
            assert(files@[7].1@ =~= seq![self.rom_page]);
            assert(files@[8].1@ =~= le_bytes(self.stack[0]) + le_bytes(self.stack[1]) + le_bytes(
                self.stack[2],
            ));
            assert(files@[9].1@ =~= seq![self.stack_ptr]);
            assert(files@[10].1@ =~= seq![self.acc]);
            assert(files@[11].1@ =~= seq![self.carry]);
            assert(mapped.len() == expected.len());
            assert forall|i: int| 0 <= i < 12 implies mapped[i] == expected[i] by {
                assert(mapped[i] == (files@[i].0, files@[i].1@));
            }
            assert(mapped =~= expected);
        }
        files
    }
}

/// The character of a decimal digit.
pub open spec fn digit_char(d: int) -> char {
    if d == 0 {
        '0'
    } else if d == 1 {
        '1'
    } else if d == 2 {
        '2'
    } else if d == 3 {
        '3'
    } else if d == 4 {
        '4'
    } else if d == 5 {
        '5'
    } else if d == 6 {
        '6'
    } else if d == 7 {
        '7'
    } else if d == 8 {
        '8'
    } else {
        '9'
    }
}

/// The decimal digits of a natural number, most significant first, without leading zeros.
pub open spec fn decimal(n: nat) -> Seq<char>
    decreases n,
{
    if n < 10 {
        seq![digit_char(n as int)]
    } else {
        decimal(n / 10).push(digit_char((n % 10) as int))
    }
}

/// An integer in decimal, with a `-` before a negative one.
pub open spec fn int_text(n: int) -> Seq<char> {
    if n < 0 {
        seq!['-'] + decimal((-n) as nat)
    } else {
        decimal(n as nat)
    }
}

/// Where a snapshot writes a part's file under `destination`:
/// `destination/<directory>/<cycle count>_<program counter>.log`, or `None`
/// for an empty destination, under which nothing is written.
pub open spec fn snapshot_file_path(destination: Seq<char>, part: DumpPart, cycle: int, pc: int)
    -> Option<Seq<char>> {
    if destination.len() == 0 {
        None
    } else {
        Some(
            destination + seq!['/'] + dump_directory(part) + seq!['/'] + int_text(cycle) + seq!['_']
                + int_text(pc) + seq!['.', 'l', 'o', 'g'],
        )
    }
}

/// The number that a string of decimal digits stands for.
pub open spec fn decimal_value(t: Seq<char>) -> int
    decreases t.len(),
{
    if t.len() == 0 {
        0
    } else {
        10 * decimal_value(t.drop_last()) + (t.last() as int - '0' as int)
    }
}

proof fn lemma_digit_char(d: int)
    requires
        0 <= d < 10,
    ensures
        digit_char(d) as int - '0' as int == d,
        '0' <= digit_char(d) <= '9',
        d != 0 ==> digit_char(d) != '0',
{
}

/// The decimal text of a number is made of digits `0`..`9`, starts with a
/// digit other than `0` unless the number is below 10, and reads back as
/// the number.
pub proof fn law_decimal_reads_back(n: nat)
    ensures
        decimal(n).len() > 0,
        forall|i: int| 0 <= i < decimal(n).len() ==> '0' <= #[trigger] decimal(n)[i] <= '9',
        n >= 10 ==> decimal(n)[0] != '0',
        decimal_value(decimal(n)) == n,
    decreases n,
{
    if n < 10 {
        let t = decimal(n);
        lemma_digit_char(n as int);
        assert(t.drop_last() =~= Seq::<char>::empty());
        assert(decimal_value(t) == 10 * decimal_value(t.drop_last()) + (t.last() as int - '0' as int));
    } else {
        law_decimal_reads_back(n / 10);
        lemma_digit_char((n % 10) as int);
        let t = decimal(n);
        assert(decimal_value(t) == 10 * decimal_value(t.drop_last()) + (t.last() as int - '0' as int));
        assert(t.drop_last() =~= decimal(n / 10));
        assert forall|i: int| 0 <= i < t.len() implies '0' <= #[trigger] t[i] <= '9' by {
            if i < t.len() - 1 {
                assert(t[i] == decimal(n / 10)[i]);
            }
        }
        if n / 10 >= 10 {
            assert(t[0] == decimal(n / 10)[0]);
        } else {
            assert(t[0] == decimal(n / 10)[0]);
        }
    }
}

/// An integer's text is its decimal digits, after a `-` for a negative one.
pub proof fn law_int_text(n: int)
    ensures
        n >= 0 ==> decimal_value(int_text(n)) == n && '0' <= int_text(n)[0] <= '9',
        n < 0 ==> int_text(n)[0] == '-' && decimal_value(int_text(n).drop_first()) == -n,
{
    if n >= 0 {
        law_decimal_reads_back(n as nat);
    } else {
        law_decimal_reads_back((-n) as nat);
        assert(int_text(n).drop_first() =~= decimal((-n) as nat));
    }
}

/// The directory each snapshot part is written under.
pub proof fn law_dump_directories()
    ensures
        dump_directory(DumpPart::RamData) == "ram/ram_data_char"@,
        dump_directory(DumpPart::RamStatus) == "ram/ram_status_char"@,
        dump_directory(DumpPart::RamOut) == "ram/ram_out"@,
        dump_directory(DumpPart::RamAddress) == "ram/ram_address_reg"@,
        dump_directory(DumpPart::RamBank) == "ram/ram_bank"@,
        dump_directory(DumpPart::RomData) == "rom/rom_data"@,
        dump_directory(DumpPart::RomIo) == "rom/rom_io_lines"@,
        dump_directory(DumpPart::RomPage) == "rom/rom_page"@,
        dump_directory(DumpPart::StackData) == "stack/stack_data"@,
        dump_directory(DumpPart::StackPointer) == "stack/stack_ptr"@,
        dump_directory(DumpPart::Accumulator) == "misc/accumulator"@,
        dump_directory(DumpPart::Carry) == "misc/carry"@,
{
}

/// Under an empty destination nothing is written. Otherwise a part's file
/// is `<destination>/<directory>/<c>_<p>.log`, where `c` reads back as the
/// cycle count and `p` as the program counter.
pub proof fn law_snapshot_file_path(destination: Seq<char>, part: DumpPart, cycle: int, pc: u16)
    ensures
        destination.len() == 0 ==> snapshot_file_path(destination, part, cycle, pc as int) is None,
        destination.len() > 0 ==> (snapshot_file_path(destination, part, cycle, pc as int) matches Some(
            path,
        ) && {
            let dir = destination + seq!['/'] + dump_directory(part) + seq!['/'];
            let name = path.subrange(dir.len() as int, path.len() as int);
            let c = int_text(cycle);
            &&& path.subrange(0, dir.len() as int) == dir
            &&& name.subrange(name.len() - 4, name.len() as int) == seq!['.', 'l', 'o', 'g']
            &&& name[c.len() as int] == '_'
            &&& name.subrange(0, c.len() as int) == c
            &&& decimal_value(name.subrange(c.len() as int + 1, name.len() - 4)) == pc
        }),
{
    law_int_text(cycle);
    law_int_text(pc as int);
    if destination.len() > 0 {
        let path = snapshot_file_path(destination, part, cycle, pc as int)->0;
        let dir = destination + seq!['/'] + dump_directory(part) + seq!['/'];
        let name = path.subrange(dir.len() as int, path.len() as int);
        let c = int_text(cycle);
        let p = int_text(pc as int);
        assert(path =~= dir + (c + seq!['_'] + p + seq!['.', 'l', 'o', 'g']));
        assert(name =~= c + seq!['_'] + p + seq!['.', 'l', 'o', 'g']);
        assert(name.subrange(c.len() as int + 1, name.len() - 4) =~= p);
        assert(name.subrange(name.len() - 4, name.len() as int) =~= seq!['.', 'l', 'o', 'g']);
        assert(name.subrange(0, c.len() as int) =~= c);
        assert(path.subrange(0, dir.len() as int) =~= dir);
    }
}

/// The text of a decimal digit.
fn digit_text(d: u64) -> (t: &'static str)
    requires
        d < 10,
    ensures
        t@ == seq![digit_char(d as int)],
{
    proof {
        reveal_strlit("0");
        reveal_strlit("1");
        reveal_strlit("2");
        reveal_strlit("3");
        reveal_strlit("4");
        reveal_strlit("5");
        reveal_strlit("6");
        reveal_strlit("7");
        reveal_strlit("8");
        reveal_strlit("9");
    }
    match d {
        0 => "0",
        1 => "1",
        2 => "2",
        3 => "3",
        4 => "4",
        5 => "5",
        6 => "6",
        7 => "7",
        8 => "8",
        _ => "9",
    }
}

/// Appends `n` in decimal.
fn append_decimal(out: &mut String, n: u64)
    ensures
        final(out)@ == old(out)@ + decimal(n as nat),
    decreases n,
{
    if n >= 10 {
        append_decimal(out, n / 10);
    }
    out.append(digit_text(n % 10));
    proof {
        if n >= 10 {
            assert(decimal(n as nat) == decimal((n / 10) as nat).push(digit_char((n % 10) as int)));
        }
    }
    assert(out@ =~= old(out)@ + decimal(n as nat));
}

impl CPU {
    /// The path of the file in which a snapshot under `destination` writes
    /// `part`, named by the cycle count and the program counter; `None` for
    /// an empty destination, under which nothing is written.
    pub fn snapshot_path(&self, destination: &str, part: DumpPart) -> (path: Option<String>)
        ensures
            match snapshot_file_path(destination@, part, self.cycle as int, self.pc as int) {
                Some(p) => path matches Some(q) && q@ == p,
                None => path is None,
            },
    {
        if destination.is_empty() {
            return None;
        }
        proof {
            reveal_strlit("/");
            reveal_strlit("_");
            reveal_strlit("-");
            reveal_strlit(".log");
        }
        let mut path = String::from_str(destination);
        path.append("/");
        path.append(part.directory());
        path.append("/");
        let ghost before_cycle = path@;
        if self.cycle < 0 {
            path.append("-");
            append_decimal(&mut path, (0i128 - self.cycle as i128) as u64);
        } else {
            append_decimal(&mut path, self.cycle as u64);
        }
        assert(path@ =~= before_cycle + int_text(self.cycle as int));
        path.append("_");
        append_decimal(&mut path, self.pc as u64);
        path.append(".log");
        assert(path@ =~= destination@ + seq!['/'] + dump_directory(part) + seq!['/'] + int_text(
            self.cycle as int,
        ) + seq!['_'] + int_text(self.pc as int) + seq!['.', 'l', 'o', 'g']);
        Some(path)
    }
}

/// A one-character token is a byte exactly when it is a hexadecimal digit:
/// `0`..`9` stand for 0..9, `a`..`f` and `A`..`F` for 10..15.
pub proof fn law_hex_one_digit(c: char)
    ensures
        '0' <= c <= '9' ==> hex_byte(seq![c]) == Some((c as int - '0' as int) as u8),
        'a' <= c <= 'f' ==> hex_byte(seq![c]) == Some((c as int - 'a' as int + 10) as u8),
        'A' <= c <= 'F' ==> hex_byte(seq![c]) == Some((c as int - 'A' as int + 10) as u8),
        !('0' <= c <= '9' || 'a' <= c <= 'f' || 'A' <= c <= 'F') ==> hex_byte(seq![c]) is None,
{
    let t = seq![c];
    assert(t.drop_last() =~= Seq::<char>::empty());
    assert(hex_value(Seq::<char>::empty()) == Some(0int));
    assert(t.last() == c);
    if c == '+' {
        assert(t.drop_first() =~= Seq::<char>::empty());
    } else {
        assert(unsigned_digits(t) == t);
        assert(hex_value(t) == match hex_digit_value(c) {
            Some(d) => Some(16 * 0 + d),
            None => None::<int>,
        });
    }
}

/// The value of a string of hexadecimal digits is not negative.
proof fn lemma_hex_value_nonnegative(digits: Seq<char>)
    ensures
        hex_value(digits) matches Some(v) ==> v >= 0,
    decreases digits.len(),
{
    if digits.len() > 0 {
        lemma_hex_value_nonnegative(digits.drop_last());
    }
}

/// Appending a hexadecimal digit to a token (one without a leading `+`)
/// that is a byte multiplies its value by 16 and adds the digit's; the
/// result is a byte when that stays below 256, and none otherwise.
pub proof fn law_hex_append_digit(t: Seq<char>, c: char)
    requires
        t.len() > 0,
        t[0] != '+',
        hex_byte(t) is Some,
        hex_byte(seq![c]) is Some,
    ensures
        ({
            let v = 16 * hex_byte(t)->0 + hex_byte(seq![c])->0;
            &&& v < 256 ==> hex_byte(t.push(c)) == Some(v as u8)
            &&& v >= 256 ==> hex_byte(t.push(c)) is None
        }),
{
    law_hex_one_digit(c);
    let u = t.push(c);
    assert(unsigned_digits(t) == t);
    assert(unsigned_digits(u) == u);
    assert(u.drop_last() =~= t);
    assert(u.last() == c);
    assert(hex_digit_value(c) is Some);
    assert(hex_byte(seq![c]) == Some((hex_digit_value(c)->0) as u8));
    assert(unsigned_digits(t).len() != 0);
    assert(hex_value(unsigned_digits(t)) is Some);
    assert(hex_value(t) is Some);
    lemma_hex_value_nonnegative(t);
    assert(hex_value(t)->0 < 256);
    assert(hex_byte(t) == Some((hex_value(t)->0) as u8));
    assert(u[0] == t[0]);
    assert(hex_value(u) == match (hex_value(t), hex_digit_value(c)) {
        (Some(v), Some(d)) => Some(16 * v + d),
        _ => None::<int>,
    });
}

/// A leading `+` on a token that has no `+` of its own leaves its value as
/// it is; the empty token and `+` alone are no bytes.
pub proof fn law_hex_sign(t: Seq<char>)
    requires
        t.len() > 0,
        t[0] != '+',
    ensures
        hex_byte(seq!['+'] + t) == hex_byte(t),
        hex_byte(Seq::empty()) is None,
        hex_byte(seq!['+']) is None,
{
    assert((seq!['+'] + t).drop_first() =~= t);
    assert(seq!['+'].drop_first() =~= Seq::<char>::empty());
}

/// A token with a character that is not a hexadecimal digit (other than a
/// leading `+`) is no byte.
pub proof fn law_hex_invalid_character(t: Seq<char>, k: int)
    requires
        0 <= k < t.len(),
        !(k == 0 && t[k] == '+'),
        !('0' <= t[k] <= '9' || 'a' <= t[k] <= 'f' || 'A' <= t[k] <= 'F'),
    ensures
        hex_byte(t) is None,
{
    let digits = unsigned_digits(t);
    if t.len() > 0 && t[0] == '+' {
        assert(digits[k - 1] == t[k]);
        lemma_hex_value_invalid_suffix(digits, k - 1);
    } else {
        lemma_hex_value_invalid_suffix(digits, k);
    }
}

/// When each of the first 4096 tokens is a byte, ROM word `i` is token
/// `i`'s byte and the words past the last token are 0. Otherwise the error
/// names the first token that is no byte.
pub proof fn law_rom_image(tokens: Seq<Seq<char>>)
    ensures
        (forall|i: int| 0 <= i < 4096 && i < tokens.len() ==> (#[trigger] hex_byte(tokens[i])) is Some)
            ==> (rom_image(tokens) matches Ok(image) && image.len() == 4096 && (forall|i: int|
            0 <= i < 4096 ==> image[i] == (if i < tokens.len() {
                hex_byte(tokens[i])->0
            } else {
                0
            }))),
        forall|k: int|
            0 <= k < 4096 && k < tokens.len() && hex_byte(#[trigger] tokens[k]) is None && (forall|
                j: int,
            |
                0 <= j < k ==> (#[trigger] hex_byte(tokens[j])) is Some) ==> rom_image(tokens)
                == Err::<Seq<u8>, int>(k),
{
    assert forall|k: int|
        0 <= k < 4096 && k < tokens.len() && hex_byte(#[trigger] tokens[k]) is None && (forall|
            j: int,
        |
            0 <= j < k ==> (#[trigger] hex_byte(tokens[j])) is Some) implies rom_image(tokens)
            == Err::<Seq<u8>, int>(k) by {
        assert(!tokens_are_hex(tokens, 4096));
        assert(tokens_are_hex(tokens, k));
        let c = choose|i: int|
            0 <= i < 4096 && i < tokens.len() && hex_byte(tokens[i]) is None && tokens_are_hex(
                tokens,
                i,
            );
        if c < k {
            assert(hex_byte(tokens[c]) is Some);
        } else if c > k {
            assert(hex_byte(tokens[k]) is Some);
        }
    }
}

/// A string with an invalid digit at position `k` has no hexadecimal value.
proof fn lemma_hex_value_invalid_suffix(digits: Seq<char>, k: int)
    requires
        0 <= k < digits.len(),
        hex_digit_value(digits[k]) is None,
    ensures
        hex_value(digits) is None,
    decreases digits.len(),
{
    if k < digits.len() - 1 {
        lemma_hex_value_invalid_suffix(digits.drop_last(), k);
    }
}

/// A snapshot holds the twelve parts once each, and each part holds the
/// bytes of the part of the state it is named for: the RAM data and status
/// characters, RAM output ports, RAM address, RAM bank, ROM, ROM I/O lines,
/// ROM page, the three stack levels (each low byte first), stack pointer,
/// accumulator and carry.
pub proof fn law_snapshot_parts(s: CpuState)
    requires
        s.wf(),
    ensures
        snapshot_contents(s).len() == 12,
        forall|i: int, j: int|
            0 <= i < j < 12 ==> #[trigger] snapshot_contents(s)[i].0 != #[trigger] snapshot_contents(
                s,
            )[j].0,
        forall|i: int|
            0 <= i < 12 ==> match #[trigger] snapshot_contents(s)[i] {
                (DumpPart::RamData, b) => b == s.ram_d,
                (DumpPart::RamStatus, b) => b == s.ram_s,
                (DumpPart::RamOut, b) => b == s.ram_o,
                (DumpPart::RamAddress, b) => b.len() == 1 && b[0] == s.ram_addr,
                (DumpPart::RamBank, b) => b.len() == 1 && b[0] == s.ram_bank,
                (DumpPart::RomData, b) => b == s.rom,
                (DumpPart::RomIo, b) => b == s.rom_io,
                (DumpPart::RomPage, b) => b.len() == 1 && b[0] == s.rom_page,
                (DumpPart::StackData, b) => b.len() == 6 && forall|k: int|
                    0 <= k < 3 ==> b[2 * k] == s.stack[k] % 256 && b[2 * k + 1] == s.stack[k] / 256,
                (DumpPart::StackPointer, b) => b.len() == 1 && b[0] == s.stack_ptr,
                (DumpPart::Accumulator, b) => b.len() == 1 && b[0] == s.acc,
                (DumpPart::Carry, b) => b.len() == 1 && b[0] == s.carry,
            },
{
    let c = snapshot_contents(s);
    let st = le_bytes(s.stack[0]) + le_bytes(s.stack[1]) + le_bytes(s.stack[2]);
    assert(c[8].1 == st);
    assert forall|k: int| 0 <= k < 3 implies st[2 * k] == s.stack[k] % 256 && st[2 * k + 1]
        == s.stack[k] / 256 by {
        if k == 0 {
        } else if k == 1 {
        } else {
        }
    }
}

} // verus!
