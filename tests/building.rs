use std::path::PathBuf;

use ver_stub::artifact::artifact_env_vars;
use ver_stub::commit_msg::truncate_commit_msg;
use ver_stub::error::Error;
use ver_stub::link_section::LinkSection;
use ver_stub::patch::{default_output_name_for, LlvmTools, PatchPlan};
use ver_stub::report::SectionInfo;
use ver_stub::{Member, BUFFER_SIZE};

fn collected() -> [Option<String>; Member::COUNT] {
    [
        Some("abc123".to_string()),
        Some("v1.0".to_string()),
        Some("main".to_string()),
        Some("2024-01-15T10:30:00+00:00".to_string()),
        Some("2024-01-15".to_string()),
        Some("msg".to_string()),
        Some("2024-02-01T00:00:00+00:00".to_string()),
        Some("2024-02-01".to_string()),
        Some("ignored".to_string()),
    ]
}

#[test]
fn nothing_selected_is_an_error() {
    let r = LinkSection::new().build_section_bytes(&collected(), None);
    assert_eq!(r, Err(Error::NothingEnabled));
}

#[test]
fn only_selected_members_are_embedded() {
    let bytes = LinkSection::new()
        .with_git_sha()
        .with_build_date()
        .with_custom("hello")
        .build_section_bytes(&collected(), None)
        .unwrap();
    assert_eq!(bytes.len(), BUFFER_SIZE);
    assert_eq!(Member::decode_idx(0, &bytes), Ok(Some("abc123")));
    assert_eq!(Member::decode_idx(1, &bytes), Ok(None));
    assert_eq!(Member::decode_idx(6, &bytes), Ok(None));
    assert_eq!(Member::decode_idx(7, &bytes), Ok(Some("2024-02-01")));
    assert_eq!(Member::decode_idx(8, &bytes), Ok(Some("hello")));
}

#[test]
fn all_git_and_all_build_time_select_their_groups() {
    let s = LinkSection::new().with_all_git();
    assert!(s.any_git_enabled());
    assert!(!s.any_build_time_enabled());
    for i in 0..6 {
        assert!(s.wants(i));
    }
    assert!(!s.wants(6) && !s.wants(7) && !s.wants(8));
    let s = LinkSection::new().with_all_build_time();
    assert!(s.wants(6) && s.wants(7) && !s.wants(0));
    let s = LinkSection::new()
        .with_git_describe()
        .with_git_branch()
        .with_git_commit_timestamp()
        .with_git_commit_date()
        .with_git_commit_msg()
        .with_build_timestamp()
        .fail_on_error();
    assert!(s.fail_on_error);
    assert!(!s.wants(0) && s.wants(1) && s.wants(5) && s.wants(6) && !s.wants(7));
}

#[test]
fn buffer_size_comes_from_builder_then_environment_then_default() {
    assert_eq!(LinkSection::new().effective_buffer_size(None), BUFFER_SIZE);
    assert_eq!(LinkSection::new().effective_buffer_size(Some(1024)), 1024);
    assert_eq!(LinkSection::new().with_buffer_size(64).effective_buffer_size(Some(1024)), 64);
}

#[test]
fn buffer_size_outside_format_range_is_refused() {
    let r = LinkSection::new().with_git_sha().with_buffer_size(32).build_section_bytes(&collected(), None);
    assert_eq!(r, Err(Error::InvalidBufferSize { size: 32 }));
    let r = LinkSection::new().with_git_sha().build_section_bytes(&collected(), Some(70000));
    assert_eq!(r, Err(Error::InvalidBufferSize { size: 70000 }));
}

#[test]
fn too_much_data_is_refused() {
    let r = LinkSection::new().with_custom(&"x".repeat(600)).build_section_bytes(&collected(), None);
    assert_eq!(r, Err(Error::SectionTooLarge { needed: 619, max: 512 }));
}

#[test]
fn absent_section_degrades_to_copy() {
    let cmd = LinkSection::new().with_git_sha().patch_into(PathBuf::from("bin/app"));
    assert!(matches!(cmd.plan(None, &collected()), Ok(PatchPlan::CopyUnchanged)));
    // Even with nothing selected, a missing section is still a plain copy.
    let cmd = LinkSection::new().patch_into(PathBuf::from("bin/app"));
    assert!(matches!(cmd.plan(None, &collected()), Ok(PatchPlan::CopyUnchanged)));
}

#[test]
fn present_section_is_replaced_at_its_own_size() {
    let cmd = LinkSection::new().with_git_branch().with_buffer_size(4096).patch_into(PathBuf::from("app"));
    let info = SectionInfo { size: 64, is_writable: true };
    match cmd.plan(Some(info), &collected()) {
        Ok(PatchPlan::Replace { bytes, warn_writable }) => {
            assert!(warn_writable);
            assert_eq!(bytes.len(), 64);
            assert_eq!(Member::decode_idx(2, &bytes), Ok(Some("main")));
        }
        _ => panic!("expected a replacement"),
    }
    let info = SectionInfo { size: 512, is_writable: false };
    match cmd.plan(Some(info), &collected()) {
        Ok(PatchPlan::Replace { warn_writable, .. }) => assert!(!warn_writable),
        _ => panic!("expected a replacement"),
    }
}

#[test]
fn output_name_resolution() {
    let cmd = LinkSection::new().with_git_sha().patch_into(PathBuf::from("target/app"));
    assert_eq!(cmd.output_file_name(true, Some("app"), ""), Ok(Some("app.bin".to_string())));
    assert_eq!(
        cmd.output_file_name(true, Some("app.exe"), ".exe"),
        Ok(Some("app.bin.exe".to_string()))
    );
    assert_eq!(cmd.output_file_name(true, None, ""), Ok(Some("output.bin".to_string())));
    assert_eq!(cmd.output_file_name(false, Some("app"), ""), Ok(None));
    let cmd = cmd.with_filename("custom-name");
    assert_eq!(cmd.bin_path, PathBuf::from("target/app"));
    assert_eq!(cmd.output_file_name(true, Some("app"), ""), Ok(Some("custom-name".to_string())));
    assert_eq!(cmd.output_file_name(false, Some("app"), ""), Err(Error::FilenameWithFilePath));
}

#[test]
fn default_output_name_strips_and_restores_suffix() {
    assert_eq!(default_output_name_for("prog", ""), "prog.bin");
    assert_eq!(default_output_name_for("prog.exe", ".exe"), "prog.bin.exe");
    assert_eq!(default_output_name_for("prog", ".exe"), "prog.bin.exe");
}

#[test]
fn artifact_variables_use_upper_snake_dependency() {
    let v = artifact_env_vars("my-dep", "my-bin");
    assert_eq!(v.file, "CARGO_BIN_FILE_MY_DEP_my-bin");
    assert_eq!(v.default_file, "CARGO_BIN_FILE_MY_DEP");
    assert_eq!(v.dir, "CARGO_BIN_DIR_MY_DEP");
}

#[test]
fn long_commit_messages_are_cut_on_a_boundary() {
    assert_eq!(truncate_commit_msg("short"), "short");
    let exact = "a".repeat(100);
    assert_eq!(truncate_commit_msg(&exact), exact);
    assert_eq!(truncate_commit_msg(&"b".repeat(150)), "b".repeat(100));
    // 'é' takes bytes 99 and 100: the cut falls before it.
    let msg = format!("{}é{}", "a".repeat(99), "z".repeat(10));
    assert_eq!(truncate_commit_msg(&msg), "a".repeat(99));
}

#[test]
fn llvm_tools_dry_run_flag() {
    let mut tools = LlvmTools::new(PathBuf::from("/opt/llvm/bin"));
    assert!(!tools.dry_run);
    tools.set_dry_run(true);
    assert!(tools.dry_run);
    assert_eq!(tools.bin_dir, PathBuf::from("/opt/llvm/bin"));
}
