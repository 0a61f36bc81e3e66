use lkp_submit::annotate::annotate_subject;
use lkp_submit::config::{Config, GitConfig, LabTask, MailConfig};
use lkp_submit::count::parse_count;
use lkp_submit::error::SubmitError;
use lkp_submit::git::{
    find_first_patch, format_patch_args, names_patch, order_patch_files, rev_list_args,
    send_email_args,
};
use lkp_submit::run::{Event, RunState, Stage};

fn strings(v: &[&str]) -> Vec<String> {
    v.iter().map(|s| s.to_string()).collect()
}

#[test]
fn default_lab_task_is_lab3_task2() {
    let t = LabTask::default();
    assert_eq!((t.lab, t.task), (3, 2));
}

#[test]
fn default_config_values() {
    let c = Config::default();
    assert_eq!(c.test, LabTask { lab: 3, task: 2 });
    assert_eq!(c.mail.to, "lkp-maintainers@os.rwth-aachen.de");
    assert!(c.mail.suppress_cc);
    assert_eq!(c.git.root_commit, "v6.5.7");
    assert_eq!(MailConfig::default().to, c.mail.to);
    assert_eq!(GitConfig::default().root_commit, c.git.root_commit);
}

#[test]
fn label_renders_lab_and_task() {
    assert_eq!(LabTask { lab: 3, task: 2 }.label(), "lab3: task2:");
    assert_eq!(LabTask { lab: 10, task: 0 }.label(), "lab10: task0:");
    assert_eq!(
        LabTask { lab: u32::MAX, task: 105 }.label(),
        "lab4294967295: task105:"
    );
    assert_eq!(LabTask { lab: 12, task: 7 }.label_bytes(), b"lab12: task7:".to_vec());
}

#[test]
fn count_plain_number_with_newline() {
    assert_eq!(parse_count(b"12\n"), Ok(12));
}

#[test]
fn count_zero() {
    assert_eq!(parse_count(b"0\n"), Ok(0));
}

#[test]
fn count_surrounding_space_and_plus_sign() {
    assert_eq!(parse_count(b" \t+7 \r\n"), Ok(7));
    assert_eq!(parse_count(b"007"), Ok(7));
}

#[test]
fn count_not_a_number() {
    assert_eq!(parse_count(b"abc\n"), Err(SubmitError::MalformedCountOutput));
    assert_eq!(parse_count(b"1 2"), Err(SubmitError::MalformedCountOutput));
    assert_eq!(parse_count(b"-1"), Err(SubmitError::MalformedCountOutput));
    assert_eq!(parse_count(b"+"), Err(SubmitError::MalformedCountOutput));
}

#[test]
fn count_empty_output() {
    assert_eq!(parse_count(b""), Err(SubmitError::MalformedCountOutput));
    assert_eq!(parse_count(b" \n"), Err(SubmitError::MalformedCountOutput));
}

#[test]
fn count_too_large() {
    assert_eq!(
        parse_count(b"999999999999999999999999999"),
        Err(SubmitError::MalformedCountOutput)
    );
    let max = usize::MAX.to_string();
    assert_eq!(parse_count(max.as_bytes()), Ok(usize::MAX));
}

#[test]
fn rev_list_query_arguments() {
    assert_eq!(
        rev_list_args(&"v6.5.7".to_string()),
        strings(&["rev-list", "--count", "v6.5.7..HEAD"])
    );
}

#[test]
fn format_patch_arguments() {
    assert_eq!(
        format_patch_args(&"/tmp/scratch".to_string(), 3),
        strings(&["format-patch", "--output-directory", "/tmp/scratch", "-3"])
    );
    assert_eq!(format_patch_args(&"d".to_string(), 120)[3], "-120");
}

#[test]
fn send_email_arguments_suppress_cc() {
    let mail = MailConfig { to: "a@b.c".to_string(), suppress_cc: true };
    let paths = strings(&["/t/0001-x.patch", "/t/0002-y.patch"]);
    assert_eq!(
        send_email_args(&mail, &paths),
        strings(&[
            "send-email",
            "--to",
            "a@b.c",
            "--confirm=never",
            "--suppress-cc=all",
            "/t/0001-x.patch",
            "/t/0002-y.patch"
        ])
    );
}

#[test]
fn send_email_arguments_keep_cc() {
    let mail = MailConfig { to: "a@b.c".to_string(), suppress_cc: false };
    let paths = strings(&["/t/0001-x.patch"]);
    assert_eq!(
        send_email_args(&mail, &paths),
        strings(&["send-email", "--to", "a@b.c", "--confirm=never", "/t/0001-x.patch"])
    );
}

#[test]
fn patch_names_by_sequence_number() {
    assert!(names_patch(&"0001-Fix-bug.patch".to_string(), 1));
    assert!(!names_patch(&"0001-Fix-bug.txt".to_string(), 1));
    assert!(!names_patch(&"0002-Fix-bug.patch".to_string(), 1));
    assert!(!names_patch(&"001-Fix-bug.patch".to_string(), 1));
    assert!(names_patch(&"0012-a.patch".to_string(), 12));
    assert!(names_patch(&"12345-a.patch".to_string(), 12345));
    assert!(!names_patch(&"2345-a.patch".to_string(), 12345));
}

#[test]
fn order_puts_oldest_commit_first() {
    let names = strings(&["0003-c.patch", "0001-a.patch", "0002-b.patch"]);
    assert_eq!(
        order_patch_files(3, &names),
        Ok(strings(&["0001-a.patch", "0002-b.patch", "0003-c.patch"]))
    );
}

#[test]
fn order_gives_exactly_count_entries() {
    let names = strings(&["0002-b.patch", "0001-a.patch"]);
    assert_eq!(order_patch_files(2, &names).unwrap().len(), 2);
    assert_eq!(order_patch_files(1, &names), Ok(strings(&["0001-a.patch"])));
    assert_eq!(order_patch_files(0, &names), Ok(Vec::new()));
}

#[test]
fn order_reports_missing_patch() {
    let names = strings(&["0001-a.patch", "0003-c.patch"]);
    assert_eq!(
        order_patch_files(3, &names),
        Err(SubmitError::MissingPatchFile { sequence: 2 })
    );
}

#[test]
fn first_patch_found() {
    let names = strings(&["0002-b.patch", "0001-a.patch"]);
    assert_eq!(find_first_patch(&names), Ok(1));
}

#[test]
fn first_patch_not_found() {
    let names = strings(&["0002-b.patch", "0001-a.txt", "a-0001-.patch"]);
    assert_eq!(find_first_patch(&names), Err(SubmitError::FirstPatchNotFound));
    assert_eq!(find_first_patch(&Vec::new()), Err(SubmitError::FirstPatchNotFound));
}

#[test]
fn subject_line_gets_tag() {
    let tag = LabTask { lab: 3, task: 2 };
    let out = annotate_subject(b"Subject: [PATCH 1/3] Fix bug", &tag);
    assert_eq!(out, b"Subject: [PATCH 1/3] lab3: task2: Fix bug".to_vec());
}

#[test]
fn only_subject_line_changes() {
    let tag = LabTask { lab: 4, task: 1 };
    let text = b"From abc Mon Sep 17 00:00:00 2001\nFrom: A <a@b.c>\nSubject: [PATCH 1/2] Add x\n\nbody ] here\n---\n+Subject: [PATCH x] y\n";
    let out = annotate_subject(text, &tag);
    let expected = b"From abc Mon Sep 17 00:00:00 2001\nFrom: A <a@b.c>\nSubject: [PATCH 1/2] lab4: task1: Add x\n\nbody ] here\n---\n+Subject: [PATCH x] y\n";
    assert_eq!(out, expected.to_vec());
    let before: Vec<&[u8]> = text.split(|b| *b == b'\n').collect();
    let after: Vec<&[u8]> = out.split(|b| *b == b'\n').collect();
    assert_eq!(before.len(), after.len());
    let changed = before.iter().zip(after.iter()).filter(|(a, b)| a != b).count();
    assert_eq!(changed, 1);
}

#[test]
fn text_without_subject_is_kept() {
    let tag = LabTask::default();
    let text = b"Subject: Fix bug\r\nno header\r\n\r\nSubject: [PATCH without bracket\n";
    assert_eq!(annotate_subject(text, &tag), text.to_vec());
    assert_eq!(annotate_subject(b"", &tag), Vec::<u8>::new());
}

#[test]
fn crlf_line_keeps_its_ending() {
    let tag = LabTask { lab: 1, task: 5 };
    let out = annotate_subject(b"Subject: [PATCH 1/1] T\r\nx", &tag);
    assert_eq!(out, b"Subject: [PATCH 1/1] lab1: task5: T\r\nx".to_vec());
}

#[test]
fn run_through_all_stages() {
    let mut s = RunState::start();
    assert_eq!(s, RunState::Working(Stage::LoadConfig));
    let mut seen = Vec::new();
    while let RunState::Working(st) = s {
        seen.push(st);
        s = s.next(Event::Completed);
    }
    assert_eq!(
        seen,
        vec![
            Stage::LoadConfig,
            Stage::AcquireScratch,
            Stage::GeneratePatches,
            Stage::AnnotateSubject,
            Stage::Dispatch
        ]
    );
    assert_eq!(s, RunState::Done);
    assert_eq!(s.exit_status(), Some(0));
}

#[test]
fn zero_commits_end_without_mailing() {
    let s = RunState::Working(Stage::GeneratePatches).next(Event::NoCommits);
    assert_eq!(s, RunState::NothingToSubmit);
    assert_eq!(s.exit_status(), Some(0));
    assert_eq!(s.next(Event::Completed), RunState::NothingToSubmit);
}

#[test]
fn missing_first_patch_ends_without_mailing() {
    let s = RunState::Working(Stage::AnnotateSubject).next(Event::Failure);
    assert_eq!(s, RunState::Failed(Stage::AnnotateSubject));
    assert_eq!(s.exit_status(), Some(1));
    assert_eq!(s.next(Event::Completed), s);
}

#[test]
fn first_run_writes_defaults_and_stops() {
    let s = RunState::start().next(Event::ConfigCreated);
    assert_eq!(s, RunState::SetupWritten);
    assert_eq!(s.exit_status(), Some(2));
    assert_eq!(RunState::start().exit_status(), None);
}

#[test]
fn early_exit_events_elsewhere_change_nothing() {
    let s = RunState::Working(Stage::Dispatch);
    assert_eq!(s.next(Event::NoCommits), s);
    assert_eq!(s.next(Event::ConfigCreated), s);
}

#[test]
fn tag_spacing_around_bracket() {
    let tag = LabTask::default();
    assert_eq!(
        annotate_subject(b"Subject: [PATCH 1/1]Fix", &tag),
        b"Subject: [PATCH 1/1] lab3: task2: Fix".to_vec()
    );
    assert_eq!(
        annotate_subject(b"Subject: [PATCH 1/1]  Two", &tag),
        b"Subject: [PATCH 1/1] lab3: task2:  Two".to_vec()
    );
    assert_eq!(
        annotate_subject(b"Subject: [PATCH 2/2] a] b", &tag),
        b"Subject: [PATCH 2/2] lab3: task2: a] b".to_vec()
    );
}
