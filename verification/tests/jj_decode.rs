use vcs_context::jj::{
    bookmark_detail_args, closest_change_args, closest_change_id, decode_closest_bookmarks,
    get_closest_jujutsu_bookmarks_info, init_repo, jujutsu_closest_template,
};
use vcs_context::text::parse_count;

#[test]
fn round_trip_two_tracked_bookmarks() {
    let output = "feat\u{1e}main\nfeat\u{1f}2\u{1f}0\u{1e}main\u{1f}0\u{1f}1";
    let info = decode_closest_bookmarks(output);
    assert_eq!(info.bookmarks.len(), 2);
    assert_eq!(info.bookmarks[0].name, "feat");
    assert_eq!(info.bookmarks[0].remote_ahead, 2);
    assert_eq!(info.bookmarks[0].remote_behind, 0);
    assert!(info.bookmarks[0].is_tracked);
    assert_eq!(info.bookmarks[1].name, "main");
    assert_eq!(info.bookmarks[1].remote_ahead, 0);
    assert_eq!(info.bookmarks[1].remote_behind, 1);
    assert!(info.bookmarks[1].is_tracked);
}

#[test]
fn duplicate_tracked_records_merge_elementwise_max() {
    let output = "feat\nfeat\u{1f}1\u{1f}3\u{1e}feat\u{1f}2\u{1f}1";
    let info = decode_closest_bookmarks(output);
    assert_eq!(info.bookmarks.len(), 1);
    assert_eq!(info.bookmarks[0].name, "feat");
    assert_eq!(info.bookmarks[0].remote_ahead, 2);
    assert_eq!(info.bookmarks[0].remote_behind, 3);
    assert!(info.bookmarks[0].is_tracked);
}

#[test]
fn untracked_local_bookmark_has_zero_counts() {
    let output = "solo\nother\u{1f}5\u{1f}6";
    let info = decode_closest_bookmarks(output);
    assert_eq!(info.bookmarks.len(), 1);
    assert_eq!(info.bookmarks[0].name, "solo");
    assert_eq!(info.bookmarks[0].remote_ahead, 0);
    assert_eq!(info.bookmarks[0].remote_behind, 0);
    assert!(!info.bookmarks[0].is_tracked);
}

#[test]
fn tracked_only_names_are_not_included() {
    let output = "kept\nkept\u{1f}1\u{1f}1\u{1e}dropped\u{1f}9\u{1f}9";
    let info = decode_closest_bookmarks(output);
    assert_eq!(info.bookmarks.len(), 1);
    assert_eq!(info.bookmarks[0].name, "kept");
}

#[test]
fn empty_phase1_output_yields_present_empty_result() {
    let info = get_closest_jujutsu_bookmarks_info(Some(""), None);
    let info = info.expect("an empty change id still yields a result");
    assert_eq!(info.bookmarks.len(), 0);
}

#[test]
fn absent_phase1_output_yields_absence() {
    assert!(get_closest_jujutsu_bookmarks_info(None, None).is_none());
}

#[test]
fn absent_phase2_output_yields_absence() {
    assert!(get_closest_jujutsu_bookmarks_info(Some("abc\u{1f}"), None).is_none());
}

#[test]
fn present_phase2_output_is_decoded() {
    let info = get_closest_jujutsu_bookmarks_info(Some("abc\u{1f}def\u{1f}"), Some("main\nmain\u{1f}4\u{1f}7"));
    let info = info.expect("both outputs present");
    assert_eq!(info.bookmarks.len(), 1);
    assert_eq!(info.bookmarks[0].name, "main");
    assert_eq!(info.bookmarks[0].remote_ahead, 4);
    assert_eq!(info.bookmarks[0].remote_behind, 7);
}

#[test]
fn malformed_json_record_is_skipped_without_aborting() {
    let output = "ok\u{1e}bad\n{\"name\": \"bad\"\u{1e}{\"name\":\"ok\",\"ahead\":1,\"behind\":2}";
    let info = decode_closest_bookmarks(output);
    assert_eq!(info.bookmarks.len(), 2);
    assert_eq!(info.bookmarks[0].name, "ok");
    assert_eq!(info.bookmarks[0].remote_ahead, 1);
    assert_eq!(info.bookmarks[0].remote_behind, 2);
    assert!(info.bookmarks[0].is_tracked);
    assert_eq!(info.bookmarks[1].name, "bad");
    assert!(!info.bookmarks[1].is_tracked);
}

#[test]
fn blank_records_are_skipped() {
    let output = "a\n \u{1e}a\u{1f}1\u{1f}2\u{1e}\t";
    let info = decode_closest_bookmarks(output);
    assert_eq!(info.bookmarks.len(), 1);
    assert_eq!(info.bookmarks[0].name, "a");
    assert_eq!(info.bookmarks[0].remote_ahead, 1);
    assert_eq!(info.bookmarks[0].remote_behind, 2);
    assert!(info.bookmarks[0].is_tracked);
}

#[test]
fn json_object_record_is_decoded() {
    let output = "x\n{\"name\":\"x\",\"ahead\":3,\"behind\":4}";
    let info = decode_closest_bookmarks(output);
    assert_eq!(info.bookmarks.len(), 1);
    assert_eq!(info.bookmarks[0].name, "x");
    assert_eq!(info.bookmarks[0].remote_ahead, 3);
    assert_eq!(info.bookmarks[0].remote_behind, 4);
    assert!(info.bookmarks[0].is_tracked);
}

#[test]
fn json_record_with_wrong_types_is_skipped() {
    let output = "x\n{\"name\":\"x\",\"ahead\":-1,\"behind\":4}";
    let info = decode_closest_bookmarks(output);
    assert_eq!(info.bookmarks.len(), 1);
    assert!(!info.bookmarks[0].is_tracked);
}

#[test]
fn oversized_count_drops_the_record() {
    let output = "big\nbig\u{1f}99999999999999999999999999\u{1f}0";
    let info = decode_closest_bookmarks(output);
    assert_eq!(info.bookmarks.len(), 1);
    assert_eq!(info.bookmarks[0].name, "big");
    assert!(!info.bookmarks[0].is_tracked);
    assert_eq!(info.bookmarks[0].remote_ahead, 0);
}

#[test]
fn empty_local_names_are_filtered_out() {
    let output = "\u{1e}a\u{1e}\u{1e}b\n";
    let info = decode_closest_bookmarks(output);
    assert_eq!(info.bookmarks.len(), 2);
    assert_eq!(info.bookmarks[0].name, "a");
    assert_eq!(info.bookmarks[1].name, "b");
}

#[test]
fn empty_phase2_output_decodes_to_nothing() {
    let info = decode_closest_bookmarks("");
    assert_eq!(info.bookmarks.len(), 0);
}

#[test]
fn carriage_returns_before_newlines_are_stripped() {
    let output = "feat\r\nfeat\u{1f}1\u{1f}2\r\nextra";
    let info = decode_closest_bookmarks(output);
    assert_eq!(info.bookmarks.len(), 1);
    assert_eq!(info.bookmarks[0].name, "feat");
    assert_eq!(info.bookmarks[0].remote_ahead, 1);
    assert_eq!(info.bookmarks[0].remote_behind, 2);
}

#[test]
fn closest_change_id_takes_first_field() {
    assert_eq!(closest_change_id("abc\u{1f}def\u{1f}"), "abc");
    assert_eq!(closest_change_id("abc"), "abc");
    assert_eq!(closest_change_id(""), "");
    assert_eq!(closest_change_id("\u{1f}abc"), "");
}

#[test]
fn phase1_arguments_are_wire_exact() {
    let args = closest_change_args(true);
    assert_eq!(
        args,
        vec![
            "log".to_string(),
            "--no-graph".to_string(),
            "-r".to_string(),
            "heads(::@ & bookmarks())".to_string(),
            "--ignore-working-copy".to_string(),
            "-T".to_string(),
            "bookmarks.map(|b| b.normal_target().change_id() ++ \"\\x1f\")".to_string(),
        ]
    );
    let args = closest_change_args(false);
    assert_eq!(
        args,
        vec![
            "log".to_string(),
            "--no-graph".to_string(),
            "-r".to_string(),
            "heads(::@ & bookmarks())".to_string(),
            "-T".to_string(),
            "bookmarks.map(|b| b.normal_target().change_id() ++ \"\\x1f\")".to_string(),
        ]
    );
}

#[test]
fn phase2_arguments_carry_the_change_id_and_template() {
    let args = bookmark_detail_args("zxqv", true);
    assert_eq!(args[3], "zxqv");
    assert_eq!(args[4], "--ignore-working-copy");
    assert_eq!(args[6], jujutsu_closest_template());
}

#[test]
fn detail_template_lines_are_separated() {
    let t = jujutsu_closest_template();
    assert!(t.starts_with("local_bookmarks.map(|b| b.name()).join(\"\\x1e\") ++ \"\\n\""));
    assert!(t.contains("remote_bookmarks.filter(|b| b.tracked())"));
    assert!(t.contains("b.tracking_ahead_count().lower()"));
    assert!(t.ends_with("|| remote_bookmarks.any(|b| b.conflict()))"));
}

#[test]
fn parse_count_reads_plain_decimals_only() {
    assert_eq!(parse_count("0"), Some(0));
    assert_eq!(parse_count("42"), Some(42));
    assert_eq!(parse_count("007"), Some(7));
    assert_eq!(parse_count(""), None);
    assert_eq!(parse_count("-1"), None);
    assert_eq!(parse_count("1a"), None);
    assert_eq!(parse_count("99999999999999999999999999"), None);
}

#[test]
fn jj_repo_carries_workdir_and_bookmarks() {
    let info = decode_closest_bookmarks("feat\n");
    let repo = init_repo("/tmp/ws".to_string(), Some(info));
    assert_eq!(repo.workdir, "/tmp/ws");
    let info = repo.jj_closest_bookmarks.expect("present");
    assert_eq!(info.bookmarks.len(), 1);
    assert!(!info.bookmarks[0].is_tracked);
}

#[test]
fn exec_jj_passes_arguments_through_unchanged() {
    let repo = init_repo("/tmp/ws".to_string(), None);
    let inv = repo.exec_jj(500, vec!["status".to_string(), "--color=never".to_string()]);
    assert_eq!(inv.program, "jj");
    assert_eq!(inv.args, vec!["status".to_string(), "--color=never".to_string()]);
    assert!(inv.env.is_empty());
    assert_eq!(inv.timeout_ms, 500);
}
