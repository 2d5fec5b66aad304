use zettel::clock::NoteTime;
use zettel::notes::{
    after_create, after_readme, create_directory_readme, create_permanent_note, create_quick_note,
    fill_template, initialize_zettelkasten_structure, required_dirs, DirOutcome, DirReport, InitStep,
    ReadmeStep,
};
use zettel::templates::TemplateError;
use zettel::text::push_padded;

fn at(year: i32, month: u32, day: u32, hour: u32, minute: u32) -> NoteTime {
    NoteTime { year, month, day, hour, minute }
}

const TEMPLATE: &str = "# {title}\nid: {timestamp}\n\nLinks to {title}.\n";

#[test]
fn timestamp_is_zero_padded() {
    assert_eq!(at(2025, 6, 15, 14, 30).timestamp_token(), "202506151430");
    assert_eq!(at(2025, 1, 2, 3, 4).timestamp_token(), "202501020304");
    assert_eq!(at(7, 12, 31, 23, 59).timestamp_token(), "000712312359");
}

#[test]
fn timestamp_of_years_outside_four_digits() {
    assert_eq!(at(12345, 1, 1, 0, 0).timestamp_token(), "+1234501010000");
    assert_eq!(at(-1, 1, 1, 0, 0).timestamp_token(), "-000101010000");
}

#[test]
fn padded_decimal_grows_past_width() {
    let mut s = String::from("x");
    push_padded(&mut s, 123456, 2);
    assert_eq!(s, "x123456");
    let mut z = String::new();
    push_padded(&mut z, 0, 3);
    assert_eq!(z, "000");
}

#[test]
fn permanent_note_fixed_time() {
    let t = at(2025, 6, 15, 14, 30);
    let note = match create_permanent_note(&t, "X", Ok(TEMPLATE.to_string())) {
        Ok(n) => n,
        Err(_) => panic!("template was given"),
    };
    assert_eq!(note.path, "100-permanent/202506151430 - X.md");
    assert!(note.path.starts_with("100-permanent/202506151430"));
    assert_eq!(note.content, "# X\nid: 202506151430\n\nLinks to X.\n");
    assert!(!note.content.contains("{timestamp}"));
    assert!(!note.content.contains("{title}"));
}

#[test]
fn filling_twice_changes_nothing() {
    let once = fill_template(TEMPLATE, "202506151430", "X");
    let twice = fill_template(&once, "202506151430", "X");
    assert_eq!(once, twice);
}

#[test]
fn fill_replaces_every_occurrence_literally() {
    assert_eq!(fill_template("{title}{title}", "1", "ab"), "abab");
    assert_eq!(fill_template("{timestamp}-{titles}", "9", "t"), "9-{titles}");
    assert_eq!(fill_template("no placeholders", "9", "t"), "no placeholders");
    assert_eq!(fill_template("", "9", "t"), "");
}

#[test]
fn fill_substitutes_timestamp_before_title() {
    // a title that looks like a placeholder is inserted as it stands
    assert_eq!(fill_template("{title}|{timestamp}", "1", "{timestamp}"), "{timestamp}|1");
}

#[test]
fn missing_template_makes_no_note() {
    let err = TemplateError::NotFound { attempted: vec!["templates".to_string()] };
    let t = at(2025, 6, 15, 14, 30);
    match create_permanent_note(&t, "Title", Err(err)) {
        Ok(_) => panic!("no note may be made without a template"),
        Err(TemplateError::NotFound { attempted }) => assert_eq!(attempted, vec!["templates".to_string()]),
        Err(_) => panic!("the loader's error must come back"),
    }
    let read = TemplateError::Read { name: "permanent-note.md".into(), path: "t/permanent-note.md".into(), reason: "gone".into() };
    assert!(create_permanent_note(&t, "Title", Err(read)).is_err());
}

#[test]
fn quick_note_keeps_content_verbatim() {
    let note = create_quick_note("A", "B");
    assert_eq!(note.path, "000-inbox/A.md");
    assert_eq!(note.content.as_bytes(), b"B");
    let raw = create_quick_note("Idea", "{title} at {timestamp}");
    assert_eq!(raw.content, "{title} at {timestamp}");
    assert_eq!(raw.path, "000-inbox/Idea.md");
}

#[test]
fn quick_note_title_is_not_sanitized() {
    assert_eq!(create_quick_note("a/b", "").path, "000-inbox/a/b.md");
}

#[test]
fn five_required_dirs() {
    assert_eq!(
        required_dirs(),
        vec!["000-inbox", "100-permanent", "200-literature", "300-projects", "400-maps"]
    );
}

#[test]
fn existing_readme_is_kept() {
    assert!(matches!(create_directory_readme("000-inbox", true), ReadmeStep::Keep));
    // a second call after the first wrote it still keeps it
    match create_directory_readme("000-inbox", false) {
        ReadmeStep::Write { path, template } => {
            assert_eq!(path, "000-inbox/README.md");
            assert_eq!(template, "directories/000-inbox.md");
        }
        ReadmeStep::Keep => panic!("no README yet"),
    }
    assert!(matches!(create_directory_readme("000-inbox", true), ReadmeStep::Keep));
}

fn report(dir: &str, outcome: DirOutcome) -> DirReport {
    DirReport { dir: dir.to_string(), outcome }
}

#[test]
fn init_with_three_of_five_templates() {
    let reports = vec![
        report("000-inbox", DirOutcome::Ready),
        report("100-permanent", DirOutcome::Ready),
        report("200-literature", DirOutcome::ReadmeFailed { reason: "missing template".into() }),
        report("300-projects", DirOutcome::Ready),
        report("400-maps", DirOutcome::ReadmeFailed { reason: "missing template".into() }),
    ];
    let warnings = initialize_zettelkasten_structure(&reports);
    assert_eq!(warnings.len(), 2);
    assert_eq!(warnings[0], "Warning: could not create README in 200-literature: missing template");
    assert_eq!(warnings[1], "Warning: could not create README in 400-maps: missing template");
}

#[test]
fn init_reports_creation_errors_and_goes_on() {
    let reports = vec![
        report("000-inbox", DirOutcome::CreateFailed { reason: "denied".into() }),
        report("100-permanent", DirOutcome::Ready),
    ];
    assert_eq!(initialize_zettelkasten_structure(&reports), vec!["Error creating 000-inbox: denied"]);
}

#[test]
fn init_all_ready_has_no_warnings() {
    let reports: Vec<DirReport> = required_dirs().into_iter().map(|d| DirReport { dir: d, outcome: DirOutcome::Ready }).collect();
    assert!(initialize_zettelkasten_structure(&reports).is_empty());
}

#[test]
fn readme_attempted_only_in_created_folder() {
    assert!(matches!(after_create(Ok(())), InitStep::SetUpReadme));
    match after_create(Err("denied".to_string())) {
        InitStep::Record(DirOutcome::CreateFailed { reason }) => assert_eq!(reason, "denied"),
        _ => panic!("a failed folder is recorded"),
    }
}

#[test]
fn readme_result_decides_outcome() {
    assert!(matches!(after_readme(Ok(())), DirOutcome::Ready));
    match after_readme(Err("missing template".to_string())) {
        DirOutcome::ReadmeFailed { reason } => assert_eq!(reason, "missing template"),
        _ => panic!("a failed README is recorded"),
    }
}

#[test]
fn one_warning_per_failed_folder_in_any_order() {
    let names = required_dirs();
    for missing in [[0usize, 1], [1, 4], [3, 4], [0, 2]] {
        let reports: Vec<DirReport> = names
            .iter()
            .enumerate()
            .map(|(i, d)| {
                let written = if missing.contains(&i) { Err("missing template".to_string()) } else { Ok(()) };
                DirReport { dir: d.clone(), outcome: after_readme(written) }
            })
            .collect();
        let warnings = initialize_zettelkasten_structure(&reports);
        assert_eq!(warnings.len(), 2);
        assert!(warnings[0].contains(&names[missing[0]]));
        assert!(warnings[1].contains(&names[missing[1]]));
    }
}
