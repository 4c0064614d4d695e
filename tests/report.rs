use ver_stub::report::{
    extract_name, matches_macho_section, parse_coff_sections, parse_elf_sections,
    parse_macho_sections, parse_size, section_info_from_report, BinaryFormat, ReportError,
    SectionInfo,
};

const ELF_REPORT: &str = "
File: target/release/app
Format: elf64-x86-64
Arch: x86_64
AddressSize: 64bit
LoadName: <Not found>
Sections [
  Section {
    Index: 15
    Name: .rodata (100)
    Type: SHT_PROGBITS (0x1)
    Flags [ (0x2)
      SHF_ALLOC (0x2)
    ]
    Address: 0x2000
    Size: 1024
  }
  Section {
    Index: 16
    Name: ver_stub (472)
    Type: SHT_PROGBITS (0x1)
    Flags [ (0x3)
      SHF_ALLOC (0x2)
      SHF_WRITE (0x1)
    ]
    Address: 0x3000
    Size: 512
  }
]
";

fn macho_report(segment: &str) -> String {
    format!(
        "File: target/release/app
Format: Mach-O 64-bit arm64
Arch: arm64
AddressSize: 64bit
Sections [
  Section {{
    Index: 0
    Name: __text (5F 5F 74 65 78 74 00 00 00 00 00 00 00 00 00 00)
    Segment: __TEXT (5F 5F 54 45 58 54 00 00 00 00 00 00 00 00 00 00)
    Address: 0x100000F50
    Size: 0x30
  }}
  Section {{
    Index: 1
    Name: ver_stub (76 65 72 5F 73 74 75 62 00 00 00 00 00 00 00 00)
    Segment: {segment} (5F 5F 54 45 58 54 00 00 00 00 00 00 00 00 00 00)
    Address: 0x100000F80
    Size: 0x200
  }}
]
"
    )
}

const COFF_REPORT: &str = "File: app.exe
Format: COFF-x86-64
Arch: x86_64
AddressSize: 64bit
Sections [
  Section {
    Number: 1
    Name: .text (2E 74 65 78 74 00 00 00)
    VirtualSize: 0x1000
    RawDataSize: 4096
    Characteristics [ (0x60000020)
      IMAGE_SCN_CNT_CODE (0x20)
      IMAGE_SCN_MEM_EXECUTE (0x20000000)
      IMAGE_SCN_MEM_READ (0x40000000)
    ]
  }
  Section {
    Number: 5
    Name: ver_stub (76 65 72 5F 73 74 75 62)
    VirtualSize: 0x200
    VirtualAddress: 0x27000
    RawDataSize: 512
    Characteristics [ (0x40000040)
      IMAGE_SCN_CNT_INITIALIZED_DATA (0x40)
      IMAGE_SCN_MEM_READ (0x40000000)
    ]
  }
]
";

#[test]
fn elf_writable_section_is_found() {
    assert_eq!(
        parse_elf_sections(ELF_REPORT, "ver_stub"),
        Ok(Some(SectionInfo { size: 512, is_writable: true }))
    );
    assert_eq!(
        parse_elf_sections(ELF_REPORT, ".rodata"),
        Ok(Some(SectionInfo { size: 1024, is_writable: false }))
    );
    assert_eq!(parse_elf_sections(ELF_REPORT, "ver_stu"), Ok(None));
    assert_eq!(
        section_info_from_report(ELF_REPORT, "ver_stub"),
        Ok(Some(SectionInfo { size: 512, is_writable: true }))
    );
}

#[test]
fn macho_text_segment_section_is_read_only() {
    let report = macho_report("__TEXT");
    let expected = Ok(Some(SectionInfo { size: 512, is_writable: false }));
    assert_eq!(parse_macho_sections(&report, "ver_stub"), expected);
    assert_eq!(parse_macho_sections(&report, "__TEXT,ver_stub"), expected);
    assert_eq!(parse_macho_sections(&report, "__DATA,ver_stub"), Ok(None));
    assert_eq!(section_info_from_report(&report, "__TEXT,ver_stub"), expected);
}

#[test]
fn macho_data_segment_section_is_writable() {
    let report = macho_report("__DATA");
    assert_eq!(
        parse_macho_sections(&report, "ver_stub"),
        Ok(Some(SectionInfo { size: 512, is_writable: true }))
    );
    assert_eq!(parse_macho_sections(&report, "__TEXT,ver_stub"), Ok(None));
}

#[test]
fn macho_qualified_target_needs_segment_seen() {
    // The size line comes before any segment line: a qualified target cannot be
    // confirmed, a bare one can.
    let report = "Format: Mach-O 64-bit arm64
Sections [
  Section {
    Name: ver_stub (00)
    Size: 16
  }
]
";
    assert_eq!(parse_macho_sections(report, "__TEXT,ver_stub"), Ok(None));
    assert_eq!(
        parse_macho_sections(report, "ver_stub"),
        Ok(Some(SectionInfo { size: 16, is_writable: false }))
    );
}

#[test]
fn coff_sections_use_raw_data_size() {
    assert_eq!(
        parse_coff_sections(COFF_REPORT, "ver_stub"),
        Ok(Some(SectionInfo { size: 512, is_writable: false }))
    );
    let writable = COFF_REPORT.replace(
        "      IMAGE_SCN_MEM_READ (0x40000000)\n    ]\n  }\n]",
        "      IMAGE_SCN_MEM_READ (0x40000000)\n      IMAGE_SCN_MEM_WRITE (0x80000000)\n    ]\n  }\n]",
    );
    assert_eq!(
        section_info_from_report(&writable, "ver_stub"),
        Ok(Some(SectionInfo { size: 512, is_writable: true }))
    );
    assert_eq!(parse_coff_sections(COFF_REPORT, "missing"), Ok(None));
}

#[test]
fn block_state_does_not_leak_into_next_block() {
    // The target block has no size line; the next block's size must not be
    // attributed to it.
    let report = "Format: elf64-x86-64
  Section {
    Name: ver_stub (1)
    Flags [
      SHF_WRITE (0x1)
    ]
  }
  Section {
    Name: other (2)
    Size: 64
  }
";
    assert_eq!(parse_elf_sections(report, "ver_stub"), Ok(None));
}

#[test]
fn detect_recognises_formats_case_insensitively() {
    assert_eq!(BinaryFormat::detect("Format: ELF64-x86-64\n"), Some(BinaryFormat::Elf));
    assert_eq!(BinaryFormat::detect("File: a\nFormat: mach-o arm64"), Some(BinaryFormat::MachO));
    assert_eq!(BinaryFormat::detect("Format:   COFF-i386\r\n"), Some(BinaryFormat::Coff));
    assert_eq!(BinaryFormat::detect("Format: wasm\n"), None);
    assert_eq!(BinaryFormat::detect(""), None);
    // Only the first five lines are searched.
    assert_eq!(BinaryFormat::detect("a\nb\nc\nd\nFormat: elf\n"), Some(BinaryFormat::Elf));
    assert_eq!(BinaryFormat::detect("a\nb\nc\nd\ne\nFormat: elf\n"), None);
    // The key must start the line.
    assert_eq!(BinaryFormat::detect("  Format: elf\n"), None);
}

#[test]
fn unknown_format_and_bad_size_are_errors() {
    assert_eq!(
        section_info_from_report("Format: wasm\n  Section {\n", "ver_stub"),
        Err(ReportError::UnknownFormat)
    );
    let report = "Format: elf64\n  Section {\n    Name: ver_stub (1)\n    Size: lots\n  }\n";
    assert_eq!(parse_elf_sections(report, "ver_stub"), Err(ReportError::InvalidSize));
    // A bad size in another section is not read.
    let report = "Format: elf64\n  Section {\n    Name: other (1)\n    Size: lots\n  }\n";
    assert_eq!(parse_elf_sections(report, "ver_stub"), Ok(None));
}

#[test]
fn sizes_are_decimal_or_hex() {
    assert_eq!(parse_size(b" 512 "), Ok(512));
    assert_eq!(parse_size(b"0x200"), Ok(512));
    assert_eq!(parse_size(b"0xFfF"), Ok(4095));
    assert_eq!(parse_size(b"+7"), Ok(7));
    assert_eq!(parse_size(b""), Err(ReportError::InvalidSize));
    assert_eq!(parse_size(b"0x"), Err(ReportError::InvalidSize));
    assert_eq!(parse_size(b"-1"), Err(ReportError::InvalidSize));
    assert_eq!(parse_size(b"12a"), Err(ReportError::InvalidSize));
    assert_eq!(parse_size(b"99999999999999999999999"), Err(ReportError::InvalidSize));
    assert_eq!(parse_size(b"0x1ffffffffffffffff"), Err(ReportError::InvalidSize));
}

#[test]
fn names_drop_their_annotation() {
    assert_eq!(extract_name(b"Name: ver_stub (472)", b"Name:"), Some(&b"ver_stub"[..]));
    assert_eq!(extract_name(b"Segment: __TEXT", b"Segment:"), Some(&b"__TEXT"[..]));
    assert_eq!(extract_name(b"Size: 12", b"Name:"), None);
}

#[test]
fn macho_matching_rules() {
    assert!(matches_macho_section(Some(b"__TEXT"), b"ver_stub", Some(b"__TEXT"), b"ver_stub"));
    assert!(!matches_macho_section(Some(b"__DATA"), b"ver_stub", Some(b"__TEXT"), b"ver_stub"));
    assert!(!matches_macho_section(None, b"ver_stub", Some(b"__TEXT"), b"ver_stub"));
    assert!(matches_macho_section(None, b"ver_stub", None, b"ver_stub"));
    assert!(!matches_macho_section(Some(b"__TEXT"), b"other", None, b"ver_stub"));
}
