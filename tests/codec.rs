use ver_stub::codec::SectionError;
use ver_stub::{build_section_buffer, header_size, Member, BUFFER_SIZE};

#[test]
fn test_zeroes() {
    let buffer = [0u8; BUFFER_SIZE];
    for idx in 0..Member::COUNT {
        assert!(Member::get_idx_from_buffer(idx, &buffer).is_none());
    }
}

#[test]
fn test_one_element() {
    let mut buffer = [0u8; BUFFER_SIZE];
    buffer[0..7].copy_from_slice(&[1u8, 4u8, 0u8, b'a', b's', b'd', b'f']);

    assert_eq!(Member::GitSha.get_from_buffer(&buffer).unwrap(), "asdf");
    for idx in 1..Member::COUNT {
        assert!(Member::get_idx_from_buffer(idx, &buffer).is_none());
    }

    // Try with more than one actual num members:
    buffer[0..11].copy_from_slice(&[3u8, 4u8, 0u8, 4u8, 0u8, 4u8, 0u8, b'a', b's', b'd', b'f']);

    assert_eq!(Member::GitSha.get_from_buffer(&buffer).unwrap(), "asdf");
    for idx in 1..Member::COUNT {
        assert!(Member::get_idx_from_buffer(idx, &buffer).is_none());
    }
}

#[test]
fn test_two_elements() {
    let mut buffer = [0u8; BUFFER_SIZE];
    buffer[0..17].copy_from_slice(&[
        3u8, 4u8, 0u8, 4u8, 0u8, 10u8, 0u8, b'a', b's', b'd', b'f', b'm', b'a', b's', b't', b'e',
        b'r',
    ]);

    assert_eq!(Member::GitSha.get_from_buffer(&buffer).unwrap(), "asdf");
    assert!(Member::GitDescribe.get_from_buffer(&buffer).is_none());
    assert_eq!(Member::GitBranch.get_from_buffer(&buffer).unwrap(), "master");
    for idx in 3..Member::COUNT {
        assert!(Member::get_idx_from_buffer(idx, &buffer).is_none());
    }

    // Move first character of 3rd elem to the 2nd elem (currently none)
    buffer[3] = 5u8;

    assert_eq!(Member::GitSha.get_from_buffer(&buffer).unwrap(), "asdf");
    assert_eq!(Member::GitDescribe.get_from_buffer(&buffer).unwrap(), "m");
    assert_eq!(Member::GitBranch.get_from_buffer(&buffer).unwrap(), "aster");
    for idx in 3..Member::COUNT {
        assert!(Member::get_idx_from_buffer(idx, &buffer).is_none());
    }
}

#[test]
fn test_build_section_buffer() {
    let mut args: [Option<String>; Member::COUNT] = Default::default();

    args[0] = Some("asdf".into());

    let buf_vec = build_section_buffer(&args, BUFFER_SIZE).unwrap();
    let buffer: &[u8; BUFFER_SIZE] = (&buf_vec[..]).try_into().unwrap();

    assert_eq!(Member::get_idx_from_buffer(0, &buffer).unwrap(), "asdf");
    for idx in 1..Member::COUNT {
        assert!(Member::get_idx_from_buffer(idx, &buffer).is_none());
    }

    args[2] = Some("jkl;".into());

    let buf_vec = build_section_buffer(&args, BUFFER_SIZE).unwrap();
    let buffer: &[u8; BUFFER_SIZE] = (&buf_vec[..]).try_into().unwrap();

    assert_eq!(Member::get_idx_from_buffer(0, &buffer).unwrap(), "asdf");
    assert!(Member::get_idx_from_buffer(1, &buffer).is_none());
    assert_eq!(Member::get_idx_from_buffer(2, &buffer).unwrap(), "jkl;");
    for idx in 3..Member::COUNT {
        assert!(Member::get_idx_from_buffer(idx, &buffer).is_none());
    }

    args[5] = Some("nana".into());

    let buf_vec = build_section_buffer(&args, BUFFER_SIZE).unwrap();
    let buffer: &[u8; BUFFER_SIZE] = (&buf_vec[..]).try_into().unwrap();

    assert_eq!(Member::get_idx_from_buffer(0, &buffer).unwrap(), "asdf");
    assert!(Member::get_idx_from_buffer(1, &buffer).is_none());
    assert_eq!(Member::get_idx_from_buffer(2, &buffer).unwrap(), "jkl;");
    assert!(Member::get_idx_from_buffer(3, &buffer).is_none());
    assert!(Member::get_idx_from_buffer(4, &buffer).is_none());
    assert_eq!(Member::get_idx_from_buffer(5, &buffer).unwrap(), "nana");
    for idx in 6..Member::COUNT {
        assert!(Member::get_idx_from_buffer(idx, &buffer).is_none());
    }
}

#[test]
fn all_ones_buffer_reports_end_past_buffer() {
    let buffer = [255u8; BUFFER_SIZE];
    assert_eq!(
        Member::decode_idx(0, &buffer),
        Err(SectionError::EndOutOfBounds { end: 511 + 65535, len: BUFFER_SIZE })
    );
}

#[test]
fn all_127s_buffer_reports_end_past_buffer() {
    let buffer = [127u8; BUFFER_SIZE];
    assert_eq!(
        Member::decode_idx(0, &buffer),
        Err(SectionError::EndOutOfBounds { end: 255 + 0x7f7f, len: BUFFER_SIZE })
    );
}

#[test]
fn end_before_start_is_an_invalid_range() {
    let mut buffer = [0u8; BUFFER_SIZE];
    buffer[0..9].copy_from_slice(&[2u8, 4u8, 0u8, 0u8, 0u8, b'a', b's', b'd', b'f']);
    assert_eq!(
        Member::decode_idx(Member::GitDescribe.index(), &buffer),
        Err(SectionError::InvalidRange { start: 9, end: 5 })
    );
}

#[test]
fn non_utf8_member_is_rejected() {
    let mut buffer = [0u8; BUFFER_SIZE];
    buffer[0..5].copy_from_slice(&[1u8, 2u8, 0u8, 255u8, 255u8]);
    assert_eq!(Member::decode_idx(0, &buffer), Err(SectionError::InvalidUtf8));
}

#[test]
fn header_past_short_buffer_is_out_of_bounds() {
    let buffer = [200u8, 0u8, 0u8];
    assert_eq!(
        Member::decode_idx(5, &buffer),
        Err(SectionError::HeaderOutOfBounds { offset: 11 })
    );
    let empty: [u8; 0] = [];
    assert_eq!(
        Member::decode_idx(0, &empty),
        Err(SectionError::HeaderOutOfBounds { offset: 0 })
    );
}

#[test]
fn zero_buffers_of_valid_sizes_are_empty() {
    for size in [33usize, 512, 4096, 65535] {
        let buffer = vec![0u8; size];
        for idx in 0..20 {
            assert_eq!(Member::decode_idx(idx, &buffer), Ok(None));
        }
    }
}

#[test]
fn members_past_declared_count_are_absent() {
    let mut buffer = [0u8; BUFFER_SIZE];
    buffer[0..11].copy_from_slice(&[3u8, 1u8, 0u8, 2u8, 0u8, 3u8, 0u8, b'x', b'y', b'z', 0u8]);
    assert_eq!(Member::decode_idx(0, &buffer), Ok(Some("x")));
    assert_eq!(Member::decode_idx(2, &buffer), Ok(Some("z")));
    for idx in 3..40 {
        assert_eq!(Member::decode_idx(idx, &buffer), Ok(None));
    }
}

#[test]
fn packing_is_monotonic_and_deterministic() {
    let mut args: [Option<String>; Member::COUNT] = Default::default();
    args[0] = Some("asdf".into());
    args[2] = Some("jkl;".into());
    args[5] = Some("nana".into());
    let first = build_section_buffer(&args, BUFFER_SIZE).unwrap();
    let second = build_section_buffer(&args, BUFFER_SIZE).unwrap();
    assert_eq!(first, second);
    assert_eq!(first.len(), BUFFER_SIZE);
    assert_eq!(first[0], 9);
    // End offsets: 4, 4, 8, 8, 8, 12, 12, 12, 12.
    assert_eq!(&first[1..19], &[4, 0, 4, 0, 8, 0, 8, 0, 8, 0, 12, 0, 12, 0, 12, 0, 12, 0]);
    assert_eq!(&first[19..31], b"asdfjkl;nana");
    assert!(first[31..].iter().all(|b| *b == 0));
    assert_eq!(Member::decode_idx(0, &first), Ok(Some("asdf")));
    assert_eq!(Member::decode_idx(1, &first), Ok(None));
    assert_eq!(Member::decode_idx(2, &first), Ok(Some("jkl;")));
    assert_eq!(Member::decode_idx(3, &first), Ok(None));
    assert_eq!(Member::decode_idx(4, &first), Ok(None));
    assert_eq!(Member::decode_idx(5, &first), Ok(Some("nana")));
}

#[test]
fn round_trip_of_every_member() {
    let values = ["0123abcd", "v1.2-3-gdead", "main", "2024-01-15T10:30:00+00:00", "2024-01-15", "Fix the thing ü", "2024-01-16T00:00:00+00:00", "2024-01-16", "custom ✓"];
    let mut args: [Option<String>; Member::COUNT] = Default::default();
    for (i, v) in values.iter().enumerate() {
        args[i] = Some(v.to_string());
    }
    for size in [header_size(Member::COUNT) + 120, 512, 65535] {
        let buf = build_section_buffer(&args, size).unwrap();
        assert_eq!(buf.len(), size);
        for (i, v) in values.iter().enumerate() {
            assert_eq!(Member::decode_idx(i, &buf), Ok(Some(*v)));
        }
        assert_eq!(Member::decode_idx(Member::COUNT, &buf), Ok(None));
    }
}

#[test]
fn empty_string_reads_back_absent() {
    let mut args: [Option<String>; Member::COUNT] = Default::default();
    args[1] = Some(String::new());
    args[2] = Some("b".into());
    let buf = build_section_buffer(&args, 64).unwrap();
    assert_eq!(Member::decode_idx(1, &buf), Ok(None));
    assert_eq!(Member::decode_idx(2, &buf), Ok(Some("b")));
}

#[test]
fn data_that_does_not_fit_is_refused() {
    let mut args: [Option<String>; Member::COUNT] = Default::default();
    args[0] = Some("a".repeat(20));
    args[3] = Some("b".repeat(20));
    let err = build_section_buffer(&args, 50).unwrap_err();
    assert_eq!(err.max, 50);
    assert_eq!(err.needed, 19 + 40);
    // Exactly full is fine.
    let buf = build_section_buffer(&args, 59).unwrap();
    assert_eq!(Member::decode_idx(3, &buf), Ok(Some("bbbbbbbbbbbbbbbbbbbb")));
}

#[test]
fn header_size_counts_two_bytes_per_member() {
    assert_eq!(header_size(0), 1);
    assert_eq!(header_size(9), 19);
    assert_eq!(header_size(255), 511);
}

#[test]
fn member_indices_are_stable() {
    let all = [
        Member::GitSha,
        Member::GitDescribe,
        Member::GitBranch,
        Member::GitCommitTimestamp,
        Member::GitCommitDate,
        Member::GitCommitMsg,
        Member::BuildTimestamp,
        Member::BuildDate,
        Member::Custom,
    ];
    for (i, m) in all.iter().enumerate() {
        assert_eq!(m.index(), i);
    }
}

#[test]
fn named_readers_read_their_slot() {
    let values = ["sha", "describe", "branch", "ts", "date", "msg", "bts", "bdate", "custom"];
    let mut args: [Option<String>; Member::COUNT] = Default::default();
    for (i, v) in values.iter().enumerate() {
        args[i] = Some(v.to_string());
    }
    let buf = build_section_buffer(&args, BUFFER_SIZE).unwrap();
    let buffer: &[u8; BUFFER_SIZE] = (&buf[..]).try_into().unwrap();
    assert_eq!(ver_stub::git_sha(buffer), Some("sha"));
    assert_eq!(ver_stub::git_describe(buffer), Some("describe"));
    assert_eq!(ver_stub::git_branch(buffer), Some("branch"));
    assert_eq!(ver_stub::git_commit_timestamp(buffer), Some("ts"));
    assert_eq!(ver_stub::git_commit_date(buffer), Some("date"));
    assert_eq!(ver_stub::git_commit_msg(buffer), Some("msg"));
    assert_eq!(ver_stub::build_timestamp(buffer), Some("bts"));
    assert_eq!(ver_stub::build_date(buffer), Some("bdate"));
    assert_eq!(ver_stub::custom(buffer), Some("custom"));
}

#[test]
fn read_buffer_u16_is_little_endian() {
    let buffer = [0u8, 0x34, 0x12, 0xff];
    assert_eq!(Member::read_buffer_u16(&buffer, 1), 0x1234);
    assert_eq!(Member::read_buffer_u16(&buffer, 2), 0xff12);
}
