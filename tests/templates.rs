use zettel::templates::{find_templates_dir, template_path, templates_env_var, Candidate, TemplateError, TemplateSources};
use zettel::text::join_path;

fn cand(path: &str, exists: bool) -> Candidate {
    Candidate { path: path.to_string(), exists }
}

fn sources() -> TemplateSources {
    TemplateSources {
        env_dir: Some("/srv/tpl".to_string()),
        home: Some("/home/ana".to_string()),
        exe_dir: Some("/usr/local/bin".to_string()),
    }
}

#[test]
fn candidates_in_search_order() {
    let dirs = sources().candidate_dirs();
    assert_eq!(
        dirs,
        vec![
            "/srv/tpl".to_string(),
            "/home/ana/.config/zettel/templates".to_string(),
            "/usr/local/bin/../share/zettel/templates".to_string(),
            "templates".to_string(),
        ]
    );
}

#[test]
fn candidates_without_any_source() {
    let s = TemplateSources { env_dir: None, home: None, exe_dir: None };
    assert_eq!(s.candidate_dirs(), vec!["templates".to_string()]);
}

#[test]
fn candidates_with_empty_home() {
    let s = TemplateSources { env_dir: None, home: Some(String::new()), exe_dir: None };
    assert_eq!(
        s.candidate_dirs(),
        vec![".config/zettel/templates".to_string(), "templates".to_string()]
    );
}

#[test]
fn override_alone_is_found() {
    let dirs = sources().candidate_dirs();
    let cands: Vec<Candidate> = dirs.iter().enumerate().map(|(i, d)| cand(d, i == 0)).collect();
    match find_templates_dir(&cands) {
        Ok(d) => assert_eq!(d, "/srv/tpl"),
        Err(_) => panic!("override directory not found"),
    }
}

#[test]
fn override_wins_over_config_dir() {
    let cands = vec![
        cand("/srv/tpl", true),
        cand("/home/ana/.config/zettel/templates", true),
        cand("templates", false),
    ];
    match find_templates_dir(&cands) {
        Ok(d) => assert_eq!(d, "/srv/tpl"),
        Err(_) => panic!("expected the override"),
    }
}

#[test]
fn falls_back_to_development_dir() {
    let cands = vec![
        cand("/srv/tpl", false),
        cand("/home/ana/.config/zettel/templates", false),
        cand("/usr/local/bin/../share/zettel/templates", false),
        cand("templates", true),
    ];
    match find_templates_dir(&cands) {
        Ok(d) => assert_eq!(d, "templates"),
        Err(_) => panic!("expected the development directory"),
    }
}

#[test]
fn nothing_exists_lists_every_candidate() {
    let cands = vec![cand("a", false), cand("b", false), cand("templates", false)];
    match find_templates_dir(&cands) {
        Ok(_) => panic!("nothing exists"),
        Err(TemplateError::NotFound { attempted }) => {
            assert_eq!(attempted, vec!["a".to_string(), "b".to_string(), "templates".to_string()])
        }
        Err(TemplateError::Read { .. }) => panic!("wrong error"),
    }
}

#[test]
fn empty_candidate_list_is_not_found() {
    match find_templates_dir(&Vec::new()) {
        Err(TemplateError::NotFound { attempted }) => assert!(attempted.is_empty()),
        _ => panic!("expected not found"),
    }
}

#[test]
fn not_found_message_names_every_remedy() {
    let m = TemplateError::NotFound { attempted: vec![] }.message();
    assert!(m.contains("run from the project directory"));
    assert!(m.contains("ZETTEL_TEMPLATES_DIR"));
    assert!(m.contains("~/.config/zettel/templates"));
}

#[test]
fn read_message_names_template_and_path() {
    let e = TemplateError::Read {
        name: "permanent-note.md".to_string(),
        path: "templates/permanent-note.md".to_string(),
        reason: "No such file".to_string(),
    };
    assert_eq!(
        e.message(),
        "could not load template 'permanent-note.md': No such file\nPath searched: templates/permanent-note.md"
    );
}

#[test]
fn template_path_joins() {
    assert_eq!(template_path("templates", "permanent-note.md"), "templates/permanent-note.md");
    assert_eq!(template_path("", "x.md"), "x.md");
    assert_eq!(join_path("/a", "directories/000-inbox.md"), "/a/directories/000-inbox.md");
}

#[test]
fn override_variable_name() {
    assert_eq!(templates_env_var(), "ZETTEL_TEMPLATES_DIR");
}
