//! Reading an object-dump report: which object format it describes, and the
//! size and writability of a named section in it.
//!
//! A report is a sequence of lines. Sections appear as blocks that open with a
//! `Section {` line and close with a `}` line; inside a block, `Name:`,
//! `Segment:`, size and flag lines describe the section.

use vstd::prelude::*;
use vstd::string::StringSliceAdditionalSpecFns;

use crate::text::{
    bytes_eq, contains, find_byte, find_from, has_infix, has_prefix, lemma_line_end_bounds,
    line_end, starts_with, strip_prefix, trim, trim_ascii,
};

verus! {

/// Size and protection of a section as linked into a binary.
#[derive(Clone, Copy, Debug, PartialEq, Eq, Structural)]
pub struct SectionInfo {
    /// Size of the section in bytes.
    pub size: usize,
    /// Whether the section is mapped writable.
    pub is_writable: bool,
}

/// Why a report could not be read.
#[derive(Clone, Copy, Debug, PartialEq, Eq, Structural)]
pub enum ReportError {
    /// No `Format:` line naming a known object format was found near the top.
    UnknownFormat,
    /// The size line of the target section does not hold a number that fits
    /// in `usize`.
    InvalidSize,
}

/// `c` is a digit in base `radix` (10 or 16, either case).
pub open spec fn is_digit_of(c: u8, radix: int) -> bool {
    if radix == 16 {
        (0x30 <= c <= 0x39) || (0x61 <= c <= 0x66) || (0x41 <= c <= 0x46)
    } else {
        0x30 <= c <= 0x39
    }
}

/// The value of a digit character.
pub open spec fn digit_value(c: u8) -> int {
    if 0x30 <= c <= 0x39 {
        c - 0x30
    } else if 0x61 <= c <= 0x66 {
        c - 0x61 + 10
    } else {
        c - 0x41 + 10
    }
}

/// Every byte of `s` is a digit in base `radix`.
pub open spec fn all_digits(s: Seq<u8>, radix: int) -> bool {
    forall|i: int| 0 <= i < s.len() ==> #[trigger] is_digit_of(s[i], radix)
}

/// The number that the digits `s` write in base `radix`.
pub open spec fn digits_value(s: Seq<u8>, radix: int) -> int
    decreases s.len(),
{
    if s.len() == 0 {
        0
    } else {
        digits_value(s.drop_last(), radix) * radix + digit_value(s.last())
    }
}

/// An unsigned number in base `radix`: an optional `+`, then one or more
/// digits.
pub open spec fn unsigned_value(s: Seq<u8>, radix: int) -> Option<int> {
    let d = if s.len() > 0 && s[0] == 0x2b {
        s.subrange(1, s.len() as int)
    } else {
        s
    };
    if d.len() > 0 && all_digits(d, radix) {
        Some(digits_value(d, radix))
    } else {
        None
    }
}

/// The `0x` prefix of a hexadecimal size.
pub open spec fn hex_prefix() -> Seq<u8> {
    seq![0x30u8, 0x78u8]
}

/// The number a size field holds: after trimming, hexadecimal behind `0x`,
/// decimal otherwise.
pub open spec fn size_value(s: Seq<u8>) -> Option<int> {
    let t = trim(s);
    if has_prefix(t, hex_prefix()) {
        unsigned_value(t.subrange(2, t.len() as int), 16)
    } else {
        unsigned_value(t, 10)
    }
}

proof fn lemma_digits_value_grows(s: Seq<u8>, radix: int, k: int)
    requires
        radix == 10 || radix == 16,
        0 <= k <= s.len(),
        all_digits(s, radix),
    ensures
        0 <= digits_value(s.subrange(0, k), radix) <= digits_value(s, radix),
    decreases s.len(),
{
    if s.len() > 0 {
        let init = s.drop_last();
        assert(all_digits(init, radix)) by {
            assert forall|i: int| 0 <= i < init.len() implies #[trigger] is_digit_of(init[i], radix) by {
                assert(is_digit_of(s[i], radix));
            }
        }
        assert(is_digit_of(s[s.len() - 1], radix));
        if k == s.len() {
            assert(s.subrange(0, k) =~= s);
            lemma_digits_value_grows(init, radix, init.len() as int);
            assert(init.subrange(0, init.len() as int) =~= init);
        } else {
            assert(s.subrange(0, k) =~= init.subrange(0, k));
            lemma_digits_value_grows(init, radix, k);
            lemma_digits_value_grows(init, radix, init.len() as int);
            assert(init.subrange(0, init.len() as int) =~= init);
        }
        let v = digits_value(init, radix);
        assert(v * radix >= v) by (nonlinear_arith)
            requires
                v >= 0,
                radix >= 1,
        ;
    } else {
        assert(s.subrange(0, k) =~= s);
    }
}

/// Reads digits in base `radix`, failing on a non-digit or on overflow.
fn parse_digits(d: &[u8], radix: usize) -> (r: Option<usize>)
    requires
        radix == 10 || radix == 16,
    ensures
        r is Some <==> (d@.len() > 0 && all_digits(d@, radix as int) && digits_value(
            d@,
            radix as int,
        ) <= usize::MAX),
        r matches Some(v) ==> v == digits_value(d@, radix as int),
{
    if d.len() == 0 {
        return None;
    }
    let mut acc: usize = 0;
    let mut i: usize = 0;
    while i < d.len()
        invariant
            radix == 10 || radix == 16,
            0 <= i <= d@.len(),
            all_digits(d@.subrange(0, i as int), radix as int),
            acc == digits_value(d@.subrange(0, i as int), radix as int),
        decreases d@.len() - i,
    {
        let c = d[i];
        let is_digit = if radix == 16 {
            (0x30 <= c && c <= 0x39) || (0x61 <= c && c <= 0x66) || (0x41 <= c && c <= 0x46)
        } else {
            0x30 <= c && c <= 0x39
        };
        if !is_digit {
            assert(!is_digit_of(d@[i as int], radix as int));
            return None;
        }
        let v: usize = if 0x30 <= c && c <= 0x39 {
            (c - 0x30) as usize
        } else if 0x61 <= c && c <= 0x66 {
            (c - 0x61 + 10) as usize
        } else {
            (c - 0x41 + 10) as usize
        };
        let ghost next = d@.subrange(0, i + 1);
        assert(next.drop_last() =~= d@.subrange(0, i as int));
        assert(all_digits(next, radix as int)) by {
            assert forall|k: int| 0 <= k < next.len() implies #[trigger] is_digit_of(
                next[k],
                radix as int,
            ) by {
                if k < i {
                    assert(is_digit_of(d@.subrange(0, i as int)[k], radix as int));
                }
            }
        }
        match acc.checked_mul(radix) {
            Some(m) => match m.checked_add(v) {
                Some(a) => {
                    acc = a;
                },
                None => {
                    proof {
                        lemma_fail_rest(d@, radix as int, i as int);
                    }
                    return None;
                },
            },
            None => {
                proof {
                    lemma_fail_rest(d@, radix as int, i as int);
                }
                return None;
            },
        }
        i = i + 1;
    }
    assert(d@.subrange(0, i as int) =~= d@);
    Some(acc)
}

/// Once a prefix of the digits is too large, or a later byte is not a digit,
/// the whole string does not read as a `usize`.
proof fn lemma_fail_rest(d: Seq<u8>, radix: int, i: int)
    requires
        radix == 10 || radix == 16,
        0 <= i < d.len(),
        digits_value(d.subrange(0, i + 1), radix) > usize::MAX,
    ensures
        !(all_digits(d, radix) && digits_value(d, radix) <= usize::MAX),
{
    if all_digits(d, radix) {
        lemma_digits_value_grows(d, radix, i + 1);
    }
}


/// Strips one leading `+`.
fn skip_plus(s: &[u8]) -> (r: &[u8])
    ensures
        r@ == (if s@.len() > 0 && s@[0] == 0x2b {
            s@.subrange(1, s@.len() as int)
        } else {
            s@
        }),
{
    if s.len() > 0 && s[0] == 0x2b {
        &s[1..s.len()]
    } else {
        s
    }
}

/// Parses a section size: decimal, or hexadecimal behind `0x`, with
/// surrounding whitespace ignored.
pub fn parse_size(size_str: &[u8]) -> (r: Result<usize, ReportError>)
    ensures
        r is Ok <==> (size_value(size_str@) matches Some(v) && v <= usize::MAX),
        r matches Ok(v) ==> size_value(size_str@) == Some(v as int),
        r matches Err(e) ==> e == ReportError::InvalidSize,
{
    let t = trim_ascii(size_str);
    let hex: [u8; 2] = [0x30, 0x78];
    assert(hex@ =~= hex_prefix());
    let (digits, radix): (&[u8], usize) = match strip_prefix(t, hex.as_slice()) {
        Some(h) => (h, 16),
        None => (t, 10),
    };
    match parse_digits(skip_plus(digits), radix) {
        Some(v) => Ok(v),
        None => Err(ReportError::InvalidSize),
    }
}

/// Object formats a report can describe.
#[derive(Clone, Copy, Debug, PartialEq, Eq, Structural)]
pub enum BinaryFormat {
    Elf,
    MachO,
    Coff,
}

/// Number of lines at the top of a report searched for the format.
pub const FORMAT_LINES: usize = 5;

/// ASCII lower case of one byte.
pub open spec fn lower(c: u8) -> u8 {
    if 0x41 <= c <= 0x5a {
        (c + 0x20) as u8
    } else {
        c
    }
}

/// `s` begins with `p` when letters are compared without regard to case;
/// `p` is lower case.
pub open spec fn has_prefix_nocase(s: Seq<u8>, p: Seq<u8>) -> bool {
    p.len() <= s.len() && forall|i: int| 0 <= i < p.len() ==> #[trigger] lower(s[i]) == p[i]
}

/// `Format:`
pub open spec fn format_key() -> Seq<u8> {
    seq![0x46u8, 0x6f, 0x72, 0x6d, 0x61, 0x74, 0x3a]
}

/// `elf`
pub open spec fn elf_word() -> Seq<u8> {
    seq![0x65u8, 0x6c, 0x66]
}

/// `mach-o`
pub open spec fn macho_word() -> Seq<u8> {
    seq![0x6du8, 0x61, 0x63, 0x68, 0x2d, 0x6f]
}

/// `coff`
pub open spec fn coff_word() -> Seq<u8> {
    seq![0x63u8, 0x6f, 0x66, 0x66]
}

/// The format a `Format:` value names, by its case-insensitive beginning.
pub open spec fn format_named(v: Seq<u8>) -> Option<BinaryFormat> {
    let t = trim(v);
    if has_prefix_nocase(t, elf_word()) {
        Some(BinaryFormat::Elf)
    } else if has_prefix_nocase(t, macho_word()) {
        Some(BinaryFormat::MachO)
    } else if has_prefix_nocase(t, coff_word()) {
        Some(BinaryFormat::Coff)
    } else {
        None
    }
}

/// The format named on a line, if it is a `Format:` line naming a known one.
pub open spec fn format_on_line(line: Seq<u8>) -> Option<BinaryFormat> {
    if has_prefix(line, format_key()) {
        format_named(line.subrange(format_key().len() as int, line.len() as int))
    } else {
        None
    }
}

/// The first known format named by a `Format:` line among the lines from
/// position `pos` on, looking at no more than `left` lines.
pub open spec fn detect_from(b: Seq<u8>, pos: int, left: nat) -> Option<BinaryFormat>
    decreases left,
{
    if left == 0 || pos < 0 || pos >= b.len() {
        None
    } else {
        let e = line_end(b, pos);
        match format_on_line(b.subrange(pos, e)) {
            Some(f) => Some(f),
            None => detect_from(b, e + 1, (left - 1) as nat),
        }
    }
}

/// Whether `s` begins with the lower-case `p`, ignoring ASCII case in `s`.
fn starts_with_nocase(s: &[u8], p: &[u8]) -> (r: bool)
    ensures
        r == has_prefix_nocase(s@, p@),
{
    if p.len() > s.len() {
        return false;
    }
    let mut i: usize = 0;
    while i < p.len()
        invariant
            p@.len() <= s@.len(),
            0 <= i <= p@.len(),
            forall|k: int| 0 <= k < i ==> #[trigger] lower(s@[k]) == p@[k],
        decreases p@.len() - i,
    {
        let c = s[i];
        let l = if 0x41 <= c && c <= 0x5a {
            c + 0x20
        } else {
            c
        };
        assert(l == lower(s@[i as int]));
        if l != p[i] {
            return false;
        }
        i = i + 1;
    }
    true
}

impl BinaryFormat {
    /// Finds the object format from a `Format: <value>` line among the first
    /// few lines of a report; the value's beginning (`elf`, `mach-o`,
    /// `coff`) is compared without regard to case. Returns `None` when no
    /// such line names a known format.
    pub fn detect(output: &str) -> (r: Option<BinaryFormat>)
        ensures
            r == detect_from(output.spec_bytes(), 0, FORMAT_LINES as nat),
    {
        let b = output.as_bytes();
        let key: [u8; 7] = [0x46, 0x6f, 0x72, 0x6d, 0x61, 0x74, 0x3a];
        let elf: [u8; 3] = [0x65, 0x6c, 0x66];
        let macho: [u8; 6] = [0x6d, 0x61, 0x63, 0x68, 0x2d, 0x6f];
        let coff: [u8; 4] = [0x63, 0x6f, 0x66, 0x66];
        assert(key@ =~= format_key());
        assert(elf@ =~= elf_word());
        assert(macho@ =~= macho_word());
        assert(coff@ =~= coff_word());
        let mut pos: usize = 0;
        let mut left: usize = FORMAT_LINES;
        while left > 0 && pos < b.len()
            invariant
                b@ == output.spec_bytes(),
                key@ == format_key(),
                elf@ == elf_word(),
                macho@ == macho_word(),
                coff@ == coff_word(),
                0 <= pos <= b@.len(),
                detect_from(b@, pos as int, left as nat) == detect_from(
                    b@,
                    0,
                    FORMAT_LINES as nat,
                ),
            decreases left,
        {
            let e = match find_byte(b, 0x0a, pos) {
                Some(i) => i,
                None => b.len(),
            };
            proof {
                lemma_line_end_bounds(b@, pos as int);
            }
            let line = &b[pos..e];
            if let Some(value) = strip_prefix(line, key.as_slice()) {
                let t = trim_ascii(value);
                if starts_with_nocase(t, elf.as_slice()) {
                    return Some(BinaryFormat::Elf);
                } else if starts_with_nocase(t, macho.as_slice()) {
                    return Some(BinaryFormat::MachO);
                } else if starts_with_nocase(t, coff.as_slice()) {
                    return Some(BinaryFormat::Coff);
                }
            }
            assert(detect_from(b@, pos as int, left as nat) == detect_from(
                b@,
                e + 1,
                (left - 1) as nat,
            ));
            if e == b.len() {
                return None;
            }
            pos = e + 1;
            left = left - 1;
        }
        None
    }
}

/// The name a `<prefix> name (annotation)` line gives: the text after the
/// prefix, up to any `(`, trimmed.
pub open spec fn extracted_name(line: Seq<u8>, prefix: Seq<u8>) -> Option<Seq<u8>> {
    if has_prefix(line, prefix) {
        let part = line.subrange(prefix.len() as int, line.len() as int);
        match find_from(part, 0x28, 0) {
            Some(i) => Some(trim(part.subrange(0, i))),
            None => Some(trim(part)),
        }
    } else {
        None
    }
}

/// Extracts the name from a line such as `Name: foo (66 6F 6F)` or
/// `Segment: __TEXT (...)`, dropping the parenthesised annotation.
pub fn extract_name<'a>(line: &'a [u8], prefix: &[u8]) -> (r: Option<&'a [u8]>)
    ensures
        opt_bytes(r) == extracted_name(line@, prefix@),
{
    let part = match strip_prefix(line, prefix) {
        Some(p) => p,
        None => return None,
    };
    match find_byte(part, 0x28, 0) {
        Some(i) => {
            proof {
                crate::text::lemma_find_from_bounds(part@, 0x28, 0);
            }
            Some(trim_ascii(&part[0..i]))
        },
        None => Some(trim_ascii(part)),
    }
}

/// An optional byte slice seen as its bytes.
pub open spec fn opt_bytes(r: Option<&[u8]>) -> Option<Seq<u8>> {
    match r {
        Some(s) => Some(s@),
        None => None,
    }
}


/// `Name:`
pub open spec fn name_key() -> Seq<u8> {
    seq![0x4eu8, 0x61, 0x6d, 0x65, 0x3a]
}

fn name_key_bytes() -> (r: [u8; 5])
    ensures
        r@ == name_key(),
{
    let r: [u8; 5] = [0x4e, 0x61, 0x6d, 0x65, 0x3a];
    assert(r@ =~= name_key());
    r
}

/// `Segment:`
pub open spec fn segment_key() -> Seq<u8> {
    seq![0x53u8, 0x65, 0x67, 0x6d, 0x65, 0x6e, 0x74, 0x3a]
}

fn segment_key_bytes() -> (r: [u8; 8])
    ensures
        r@ == segment_key(),
{
    let r: [u8; 8] = [0x53, 0x65, 0x67, 0x6d, 0x65, 0x6e, 0x74, 0x3a];
    assert(r@ =~= segment_key());
    r
}

/// `Size:`
pub open spec fn size_key() -> Seq<u8> {
    seq![0x53u8, 0x69, 0x7a, 0x65, 0x3a]
}

fn size_key_bytes() -> (r: [u8; 5])
    ensures
        r@ == size_key(),
{
    let r: [u8; 5] = [0x53, 0x69, 0x7a, 0x65, 0x3a];
    assert(r@ =~= size_key());
    r
}

/// `RawDataSize:`
pub open spec fn raw_data_size_key() -> Seq<u8> {
    seq![0x52u8, 0x61, 0x77, 0x44, 0x61, 0x74, 0x61, 0x53, 0x69, 0x7a, 0x65, 0x3a]
}

fn raw_data_size_key_bytes() -> (r: [u8; 12])
    ensures
        r@ == raw_data_size_key(),
{
    let r: [u8; 12] = [0x52, 0x61, 0x77, 0x44, 0x61, 0x74, 0x61, 0x53, 0x69, 0x7a, 0x65, 0x3a];
    assert(r@ =~= raw_data_size_key());
    r
}

/// `SHF_WRITE`
pub open spec fn elf_write_flag() -> Seq<u8> {
    seq![0x53u8, 0x48, 0x46, 0x5f, 0x57, 0x52, 0x49, 0x54, 0x45]
}

fn elf_write_flag_bytes() -> (r: [u8; 9])
    ensures
        r@ == elf_write_flag(),
{
    let r: [u8; 9] = [0x53, 0x48, 0x46, 0x5f, 0x57, 0x52, 0x49, 0x54, 0x45];
    assert(r@ =~= elf_write_flag());
    r
}

/// `IMAGE_SCN_MEM_WRITE`
pub open spec fn coff_write_flag() -> Seq<u8> {
    seq![0x49u8, 0x4d, 0x41, 0x47, 0x45, 0x5f, 0x53, 0x43, 0x4e, 0x5f, 0x4d, 0x45, 0x4d, 0x5f, 0x57, 0x52, 0x49, 0x54, 0x45]
}

fn coff_write_flag_bytes() -> (r: [u8; 19])
    ensures
        r@ == coff_write_flag(),
{
    let r: [u8; 19] = [0x49, 0x4d, 0x41, 0x47, 0x45, 0x5f, 0x53, 0x43, 0x4e, 0x5f, 0x4d, 0x45, 0x4d, 0x5f, 0x57, 0x52, 0x49, 0x54, 0x45];
    assert(r@ =~= coff_write_flag());
    r
}

/// `Section {`
pub open spec fn section_open() -> Seq<u8> {
    seq![0x53u8, 0x65, 0x63, 0x74, 0x69, 0x6f, 0x6e, 0x20, 0x7b]
}

fn section_open_bytes() -> (r: [u8; 9])
    ensures
        r@ == section_open(),
{
    let r: [u8; 9] = [0x53, 0x65, 0x63, 0x74, 0x69, 0x6f, 0x6e, 0x20, 0x7b];
    assert(r@ =~= section_open());
    r
}

/// `}`
pub open spec fn section_close() -> Seq<u8> {
    seq![0x7du8]
}

fn section_close_bytes() -> (r: [u8; 1])
    ensures
        r@ == section_close(),
{
    let r: [u8; 1] = [0x7d];
    assert(r@ =~= section_close());
    r
}

/// `__DATA`
pub open spec fn data_segment() -> Seq<u8> {
    seq![0x5fu8, 0x5f, 0x44, 0x41, 0x54, 0x41]
}

fn data_segment_bytes() -> (r: [u8; 6])
    ensures
        r@ == data_segment(),
{
    let r: [u8; 6] = [0x5f, 0x5f, 0x44, 0x41, 0x54, 0x41];
    assert(r@ =~= data_segment());
    r
}

/// What one line of a report does to the scan.
pub enum Step<S> {
    /// Go on to the next line in this state.
    Next(S),
    /// The target section's block closed with a size: the scan is done.
    Found(SectionInfo),
    /// The target section's size could not be read.
    Failed(ReportError),
}

/// Scan state for reports whose blocks carry an explicit writable flag.
#[derive(Clone, Copy, Debug, PartialEq, Eq, Structural)]
pub struct FlagState {
    /// The current block names the target section.
    pub in_target: bool,
    /// Size read in the current block, if any.
    pub size: Option<usize>,
    /// The writable flag was seen in the current block.
    pub writable: bool,
}

/// The state at the start of a block, and of the scan.
pub open spec fn flag_reset() -> FlagState {
    FlagState { in_target: false, size: None, writable: false }
}

/// The reading of a size field, when it fits in `usize`.
pub open spec fn size_field(v: Seq<u8>) -> Option<usize> {
    match size_value(v) {
        Some(n) => if n <= usize::MAX {
            Some(n as usize)
        } else {
            None
        },
        None => None,
    }
}

/// One trimmed line `t` of a report whose sections have a `Name:` line, a
/// size line starting with `key` and, when writable, a line holding `flag`.
pub open spec fn flag_step(st: FlagState, t: Seq<u8>, target: Seq<u8>, key: Seq<u8>, flag: Seq<u8>) -> Step<FlagState> {
    if extracted_name(t, name_key()) is Some {
        Step::Next(FlagState { in_target: extracted_name(t, name_key())->Some_0 == target, ..st })
    } else if st.in_target && has_prefix(t, key) {
        match size_field(t.subrange(key.len() as int, t.len() as int)) {
            Some(v) => Step::Next(FlagState { size: Some(v), ..st }),
            None => Step::Failed(ReportError::InvalidSize),
        }
    } else if st.in_target && has_infix(t, flag) {
        Step::Next(FlagState { writable: true, ..st })
    } else if t == section_close() && st.in_target && st.size is Some {
        Step::Found(SectionInfo { size: st.size->Some_0, is_writable: st.writable })
    } else if t == section_open() {
        Step::Next(flag_reset())
    } else {
        Step::Next(st)
    }
}

/// The outcome of scanning the lines of `b` from position `pos` in state `st`.
pub open spec fn flag_scan(
    b: Seq<u8>,
    pos: int,
    st: FlagState,
    target: Seq<u8>,
    key: Seq<u8>,
    flag: Seq<u8>,
) -> Result<Option<SectionInfo>, ReportError>
    decreases b.len() + 1 - pos,
    via flag_scan_decreases
{
    if pos < 0 || pos >= b.len() {
        Ok(None)
    } else {
        let e = line_end(b, pos);
        match flag_step(st, trim(b.subrange(pos, e)), target, key, flag) {
            Step::Next(next) => flag_scan(b, e + 1, next, target, key, flag),
            Step::Found(info) => Ok(Some(info)),
            Step::Failed(err) => Err(err),
        }
    }
}

#[via_fn]
proof fn flag_scan_decreases(
    b: Seq<u8>,
    pos: int,
    st: FlagState,
    target: Seq<u8>,
    key: Seq<u8>,
    flag: Seq<u8>,
) {
    if 0 <= pos < b.len() {
        lemma_line_end_bounds(b, pos);
    }
}

/// The size field behind `key` on line `t`, which begins with it.
fn read_size_field(t: &[u8], key: &[u8]) -> (r: Result<usize, ReportError>)
    requires
        has_prefix(t@, key@),
    ensures
        r is Ok <==> size_field(t@.subrange(key@.len() as int, t@.len() as int)) is Some,
        r matches Ok(v) ==> size_field(t@.subrange(key@.len() as int, t@.len() as int)) == Some(v),
        r matches Err(e) ==> e == ReportError::InvalidSize,
{
    parse_size(&t[key.len()..t.len()])
}

fn flag_step_exec(st: FlagState, t: &[u8], target: &[u8], key: &[u8], flag: &[u8]) -> (r: Step<FlagState>)
    ensures
        r == flag_step(st, t@, target@, key@, flag@),
{
    let name = name_key_bytes();
    if let Some(n) = extract_name(t, name.as_slice()) {
        Step::Next(FlagState { in_target: bytes_eq(n, target), ..st })
    } else if st.in_target && starts_with(t, key) {
        match read_size_field(t, key) {
            Ok(v) => Step::Next(FlagState { size: Some(v), ..st }),
            Err(e) => Step::Failed(e),
        }
    } else if st.in_target && contains(t, flag) {
        Step::Next(FlagState { writable: true, ..st })
    } else if bytes_eq(t, section_close_bytes().as_slice()) && st.in_target && st.size.is_some() {
        match st.size {
            Some(size) => Step::Found(SectionInfo { size, is_writable: st.writable }),
            None => Step::Next(st),
        }
    } else if bytes_eq(t, section_open_bytes().as_slice()) {
        Step::Next(FlagState { in_target: false, size: None, writable: false })
    } else {
        Step::Next(st)
    }
}

/// Scans a report whose section blocks name the section on a `Name:` line,
/// give its size behind `key`, and list `flag` when it is writable.
fn scan_flagged(b: &[u8], target: &[u8], key: &[u8], flag: &[u8]) -> (r: Result<Option<SectionInfo>, ReportError>)
    ensures
        r == flag_scan(b@, 0, flag_reset(), target@, key@, flag@),
{
    let mut pos: usize = 0;
    let mut st = FlagState { in_target: false, size: None, writable: false };
    while pos < b.len()
        invariant
            0 <= pos <= b@.len(),
            flag_scan(b@, pos as int, st, target@, key@, flag@) == flag_scan(
                b@,
                0,
                flag_reset(),
                target@,
                key@,
                flag@,
            ),
        decreases b@.len() - pos,
    {
        proof {
            lemma_line_end_bounds(b@, pos as int);
        }
        let e = match find_byte(b, 0x0a, pos) {
            Some(i) => i,
            None => b.len(),
        };
        let t = trim_ascii(&b[pos..e]);
        match flag_step_exec(st, t, target, key, flag) {
            Step::Next(next) => {
                assert(flag_scan(b@, pos as int, st, target@, key@, flag@) == flag_scan(
                    b@,
                    e + 1,
                    next,
                    target@,
                    key@,
                    flag@,
                ));
                st = next;
            },
            Step::Found(info) => {
                return Ok(Some(info));
            },
            Step::Failed(err) => {
                return Err(err);
            },
        }
        if e == b.len() {
            return Ok(None);
        }
        pos = e + 1;
    }
    Ok(None)
}

/// Finds a section in an ELF report: the `Name:` must equal `section_name`,
/// the size comes from the `Size:` line, and the section is writable when its
/// flags list `SHF_WRITE`.
///
/// Returns `Ok(None)` when no block for the section closes with a size.
pub fn parse_elf_sections(output: &str, section_name: &str) -> (r: Result<Option<SectionInfo>, ReportError>)
    ensures
        r == flag_scan(
            output.spec_bytes(),
            0,
            flag_reset(),
            section_name.spec_bytes(),
            size_key(),
            elf_write_flag(),
        ),
{
    let key = size_key_bytes();
    let flag = elf_write_flag_bytes();
    scan_flagged(output.as_bytes(), section_name.as_bytes(), key.as_slice(), flag.as_slice())
}

/// Finds a section in a COFF report: the `Name:` must equal `section_name`
/// (COFF names are at most eight bytes), the size comes from the
/// `RawDataSize:` line, and the section is writable when its characteristics
/// list `IMAGE_SCN_MEM_WRITE`.
///
/// Returns `Ok(None)` when no block for the section closes with a size.
pub fn parse_coff_sections(output: &str, section_name: &str) -> (r: Result<Option<SectionInfo>, ReportError>)
    ensures
        r == flag_scan(
            output.spec_bytes(),
            0,
            flag_reset(),
            section_name.spec_bytes(),
            raw_data_size_key(),
            coff_write_flag(),
        ),
{
    let key = raw_data_size_key_bytes();
    let flag = coff_write_flag_bytes();
    scan_flagged(output.as_bytes(), section_name.as_bytes(), key.as_slice(), flag.as_slice())
}


/// Scan state for Mach-O reports, where sections live inside segments.
pub struct MachoState {
    /// The segment of the current block, once seen.
    pub segment: Option<Seq<u8>>,
    /// The section name of the current block, once seen.
    pub name: Option<Seq<u8>>,
    /// The current block is the target section.
    pub in_target: bool,
    /// Size read in the current block, if any.
    pub size: Option<usize>,
    /// The current block's segment is the writable data segment.
    pub writable: bool,
}

/// The state at the start of a block, and of the scan.
pub open spec fn macho_reset() -> MachoState {
    MachoState { segment: None, name: None, in_target: false, size: None, writable: false }
}

/// A section called `name` in segment `seg` is the target: the names agree,
/// and when the target names a segment, the section's segment is known and
/// agrees too.
pub open spec fn macho_matches(seg: Option<Seq<u8>>, name: Seq<u8>, tseg: Option<Seq<u8>>, tsec: Seq<u8>) -> bool {
    name == tsec && match tseg {
        Some(ts) => seg == Some(ts),
        None => true,
    }
}

/// A Mach-O target split at its first comma into segment and section; a
/// target without a comma is a bare section name.
pub open spec fn split_target(t: Seq<u8>) -> (Option<Seq<u8>>, Seq<u8>) {
    match find_from(t, 0x2c, 0) {
        Some(i) => (Some(t.subrange(0, i)), t.subrange(i + 1, t.len() as int)),
        None => (None, t),
    }
}

/// One trimmed line `t` of a Mach-O report, for the target `tseg,tsec`.
pub open spec fn macho_step(st: MachoState, t: Seq<u8>, tseg: Option<Seq<u8>>, tsec: Seq<u8>) -> Step<MachoState> {
    if extracted_name(t, segment_key()) is Some {
        let seg = extracted_name(t, segment_key())->Some_0;
        Step::Next(
            MachoState {
                segment: Some(seg),
                writable: seg == data_segment(),
                in_target: match st.name {
                    Some(n) => macho_matches(Some(seg), n, tseg, tsec),
                    None => st.in_target,
                },
                ..st
            },
        )
    } else if extracted_name(t, name_key()) is Some {
        let n = extracted_name(t, name_key())->Some_0;
        Step::Next(
            MachoState { name: Some(n), in_target: macho_matches(st.segment, n, tseg, tsec), ..st },
        )
    } else if st.in_target && has_prefix(t, size_key()) {
        match size_field(t.subrange(size_key().len() as int, t.len() as int)) {
            Some(v) => Step::Next(MachoState { size: Some(v), ..st }),
            None => Step::Failed(ReportError::InvalidSize),
        }
    } else if t == section_close() && st.in_target && st.size is Some {
        Step::Found(SectionInfo { size: st.size->Some_0, is_writable: st.writable })
    } else if t == section_open() {
        Step::Next(macho_reset())
    } else {
        Step::Next(st)
    }
}

/// The outcome of scanning the lines of a Mach-O report `b` from `pos`.
pub open spec fn macho_scan(
    b: Seq<u8>,
    pos: int,
    st: MachoState,
    tseg: Option<Seq<u8>>,
    tsec: Seq<u8>,
) -> Result<Option<SectionInfo>, ReportError>
    decreases b.len() + 1 - pos,
    via macho_scan_decreases
{
    if pos < 0 || pos >= b.len() {
        Ok(None)
    } else {
        let e = line_end(b, pos);
        match macho_step(st, trim(b.subrange(pos, e)), tseg, tsec) {
            Step::Next(next) => macho_scan(b, e + 1, next, tseg, tsec),
            Step::Found(info) => Ok(Some(info)),
            Step::Failed(err) => Err(err),
        }
    }
}

#[via_fn]
proof fn macho_scan_decreases(
    b: Seq<u8>,
    pos: int,
    st: MachoState,
    tseg: Option<Seq<u8>>,
    tsec: Seq<u8>,
) {
    if 0 <= pos < b.len() {
        lemma_line_end_bounds(b, pos);
    }
}

/// Whether a Mach-O section `current_name`, in `current_segment` if one was
/// seen, is the target `target_segment,target_section`.
pub fn matches_macho_section(
    current_segment: Option<&[u8]>,
    current_name: &[u8],
    target_segment: Option<&[u8]>,
    target_section: &[u8],
) -> (r: bool)
    ensures
        r == macho_matches(
            opt_bytes(current_segment),
            current_name@,
            opt_bytes(target_segment),
            target_section@,
        ),
{
    if !bytes_eq(current_name, target_section) {
        return false;
    }
    match target_segment {
        Some(target_seg) => match current_segment {
            Some(current_seg) => bytes_eq(current_seg, target_seg),
            None => false,
        },
        None => true,
    }
}

/// Splits a Mach-O target at its first comma.
fn split_target_exec(t: &[u8]) -> (r: (Option<&[u8]>, &[u8]))
    ensures
        (opt_bytes(r.0), r.1@) == split_target(t@),
{
    let n = t.len();
    match find_byte(t, 0x2c, 0) {
        Some(i) => {
            proof {
                crate::text::lemma_find_from_bounds(t@, 0x2c, 0);
            }
            (Some(&t[0..i]), &t[i + 1..n])
        },
        None => (None, t),
    }
}

/// The executable form of [`MachoState`], over slices of the report.
#[derive(Clone, Copy)]
struct MachoCursor<'a> {
    segment: Option<&'a [u8]>,
    name: Option<&'a [u8]>,
    in_target: bool,
    size: Option<usize>,
    writable: bool,
}

impl<'a> MachoCursor<'a> {
    spec fn state(self) -> MachoState {
        MachoState {
            segment: opt_bytes(self.segment),
            name: opt_bytes(self.name),
            in_target: self.in_target,
            size: self.size,
            writable: self.writable,
        }
    }
}

spec fn cursor_step(s: Step<MachoCursor>) -> Step<MachoState> {
    match s {
        Step::Next(c) => Step::Next(c.state()),
        Step::Found(i) => Step::Found(i),
        Step::Failed(e) => Step::Failed(e),
    }
}

fn macho_step_exec<'a>(st: MachoCursor<'a>, t: &'a [u8], tseg: Option<&[u8]>, tsec: &[u8]) -> (r: Step<MachoCursor<'a>>)
    ensures
        cursor_step(r) == macho_step(st.state(), t@, opt_bytes(tseg), tsec@),
{
    let segment_key = segment_key_bytes();
    let name_key = name_key_bytes();
    let size_key = size_key_bytes();
    if let Some(seg) = extract_name(t, segment_key.as_slice()) {
        let data = data_segment_bytes();
        let in_target = match st.name {
            Some(n) => matches_macho_section(Some(seg), n, tseg, tsec),
            None => st.in_target,
        };
        Step::Next(
            MachoCursor {
                segment: Some(seg),
                writable: bytes_eq(seg, data.as_slice()),
                in_target,
                ..st
            },
        )
    } else if let Some(n) = extract_name(t, name_key.as_slice()) {
        let in_target = matches_macho_section(st.segment, n, tseg, tsec);
        Step::Next(MachoCursor { name: Some(n), in_target, ..st })
    } else if st.in_target && starts_with(t, size_key.as_slice()) {
        match read_size_field(t, size_key.as_slice()) {
            Ok(v) => Step::Next(MachoCursor { size: Some(v), ..st }),
            Err(e) => Step::Failed(e),
        }
    } else if bytes_eq(t, section_close_bytes().as_slice()) && st.in_target && st.size.is_some() {
        match st.size {
            Some(size) => Step::Found(SectionInfo { size, is_writable: st.writable }),
            None => Step::Next(st),
        }
    } else if bytes_eq(t, section_open_bytes().as_slice()) {
        Step::Next(
            MachoCursor { segment: None, name: None, in_target: false, size: None, writable: false },
        )
    } else {
        Step::Next(st)
    }
}

/// Finds a section in a Mach-O report.
///
/// `section_name` is either a bare section name or `segment,section`. The
/// segment is tracked from `Segment:` lines; a qualified target matches only
/// once the section's segment has been seen and agrees. The size comes from
/// the `Size:` line (decimal or `0x` hexadecimal), and the section is writable
/// when its segment is `__DATA`.
///
/// Returns `Ok(None)` when no block for the section closes with a size.
pub fn parse_macho_sections(output: &str, section_name: &str) -> (r: Result<Option<SectionInfo>, ReportError>)
    ensures
        r == macho_scan(
            output.spec_bytes(),
            0,
            macho_reset(),
            split_target(section_name.spec_bytes()).0,
            split_target(section_name.spec_bytes()).1,
        ),
{
    let b = output.as_bytes();
    let (tseg, tsec) = split_target_exec(section_name.as_bytes());
    let mut pos: usize = 0;
    let mut st = MachoCursor { segment: None, name: None, in_target: false, size: None, writable: false };
    assert(st.state() == macho_reset());
    while pos < b.len()
        invariant
            0 <= pos <= b@.len(),
            b@ == output.spec_bytes(),
            (opt_bytes(tseg), tsec@) == split_target(section_name.spec_bytes()),
            macho_scan(b@, pos as int, st.state(), opt_bytes(tseg), tsec@) == macho_scan(
                b@,
                0,
                macho_reset(),
                opt_bytes(tseg),
                tsec@,
            ),
        decreases b@.len() - pos,
    {
        proof {
            lemma_line_end_bounds(b@, pos as int);
        }
        let e = match find_byte(b, 0x0a, pos) {
            Some(i) => i,
            None => b.len(),
        };
        let t = trim_ascii(&b[pos..e]);
        match macho_step_exec(st, t, tseg, tsec) {
            Step::Next(next) => {
                assert(macho_scan(b@, pos as int, st.state(), opt_bytes(tseg), tsec@) == macho_scan(
                    b@,
                    e + 1,
                    next.state(),
                    opt_bytes(tseg),
                    tsec@,
                ));
                st = next;
            },
            Step::Found(info) => {
                return Ok(Some(info));
            },
            Step::Failed(err) => {
                return Err(err);
            },
        }
        if e == b.len() {
            return Ok(None);
        }
        pos = e + 1;
    }
    Ok(None)
}


/// The outcome of looking up `name` in report `b`: the format decides which
/// section grammar applies.
pub open spec fn locate_spec(b: Seq<u8>, name: Seq<u8>) -> Result<Option<SectionInfo>, ReportError> {
    match detect_from(b, 0, FORMAT_LINES as nat) {
        None => Err(ReportError::UnknownFormat),
        Some(BinaryFormat::Elf) => flag_scan(b, 0, flag_reset(), name, size_key(), elf_write_flag()),
        Some(BinaryFormat::Coff) => flag_scan(
            b,
            0,
            flag_reset(),
            name,
            raw_data_size_key(),
            coff_write_flag(),
        ),
        Some(BinaryFormat::MachO) => macho_scan(
            b,
            0,
            macho_reset(),
            split_target(name).0,
            split_target(name).1,
        ),
    }
}

/// Looks up a section in an object-dump report of any supported format.
///
/// Returns `Ok(Some(info))` when the section is present, `Ok(None)` when it
/// is not, and an error when the format is not recognised or the section's
/// size cannot be read.
pub fn section_info_from_report(report: &str, section_name: &str) -> (r: Result<Option<SectionInfo>, ReportError>)
    ensures
        r == locate_spec(report.spec_bytes(), section_name.spec_bytes()),
{
    match BinaryFormat::detect(report) {
        Some(BinaryFormat::Elf) => parse_elf_sections(report, section_name),
        Some(BinaryFormat::MachO) => parse_macho_sections(report, section_name),
        Some(BinaryFormat::Coff) => parse_coff_sections(report, section_name),
        None => Err(ReportError::UnknownFormat),
    }
}

} // verus!
