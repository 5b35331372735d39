use term_session::session::TemplateApp;

const PROMPT: &str = "geongupark@CV ~ % ";

fn fresh() -> TemplateApp {
    TemplateApp::with_banner("banner".to_string())
}

fn submit_text(app: &mut TemplateApp, text: &str) {
    app.input = text.to_string();
    app.submit();
}

#[test]
fn fresh_session_holds_only_the_banner() {
    let app = fresh();
    assert_eq!(app.history, vec!["banner".to_string()]);
    assert_eq!(app.input, "");
    assert!(app.command_history.is_empty());
    assert_eq!(app.history_index, None);
}

#[test]
fn default_seeds_login_banner() {
    let app = TemplateApp::default();
    assert_eq!(app.history.len(), 1);
    assert!(app.history[0].starts_with("Last login: "));
    assert!(app.history[0].ends_with(" on ttys000"));
    assert_eq!(app.input, "");
    assert!(app.command_history.is_empty());
    assert_eq!(app.history_index, None);
}

#[test]
fn prompt_is_fixed() {
    assert_eq!(TemplateApp::prompt(), PROMPT);
}

#[test]
fn empty_submission_echoes_prompt_only() {
    let mut app = fresh();
    submit_text(&mut app, "");
    assert_eq!(app.history, vec!["banner".to_string(), PROMPT.to_string()]);
    assert!(app.command_history.is_empty());
    assert_eq!(app.input, "");
    assert_eq!(app.history_index, None);
}

#[test]
fn whitespace_only_submission_does_not_enter_history() {
    let mut app = fresh();
    submit_text(&mut app, "   \t ");
    assert_eq!(
        app.history,
        vec!["banner".to_string(), format!("{}   \t ", PROMPT)]
    );
    assert!(app.command_history.is_empty());
}

#[test]
fn help_appends_fixed_line() {
    let mut app = fresh();
    submit_text(&mut app, "help");
    assert_eq!(
        app.history,
        vec![
            "banner".to_string(),
            format!("{}help", PROMPT),
            "Available commands: ls, pwd, about, help".to_string(),
        ]
    );
}

#[test]
fn ls_appends_two_fixed_lines() {
    let mut app = fresh();
    submit_text(&mut app, "ls");
    assert_eq!(
        app.history,
        vec![
            "banner".to_string(),
            format!("{}ls", PROMPT),
            "Documents\tLibrary\tMusic\tPublic\tDesktop".to_string(),
            "Downloads\tMovies\tPictures".to_string(),
        ]
    );
}

#[test]
fn about_appends_two_fixed_lines() {
    let mut app = fresh();
    submit_text(&mut app, "about");
    assert_eq!(
        app.history,
        vec![
            "banner".to_string(),
            format!("{}about", PROMPT),
            "Geongu Park – System Software Engineer".to_string(),
            "Experienced in ARM virtualization, embedded C++, and Rust WebAssembly.".to_string(),
        ]
    );
}

#[test]
fn pwd_appends_path_line() {
    let mut app = fresh();
    submit_text(&mut app, "pwd");
    assert_eq!(
        app.history,
        vec![
            "banner".to_string(),
            format!("{}pwd", PROMPT),
            "/Users/geongupark".to_string(),
        ]
    );
}

#[test]
fn unknown_command_reports_not_found() {
    let mut app = fresh();
    submit_text(&mut app, "xyz");
    assert_eq!(
        app.history,
        vec![
            "banner".to_string(),
            format!("{}xyz", PROMPT),
            "xyz: command not found".to_string(),
        ]
    );
    assert_eq!(app.command_history, vec!["xyz".to_string()]);
}

#[test]
fn history_holds_nonempty_trimmed_submissions_in_order() {
    let mut app = fresh();
    submit_text(&mut app, "ls");
    submit_text(&mut app, "   ");
    submit_text(&mut app, "");
    submit_text(&mut app, "  pwd ");
    submit_text(&mut app, "xyz");
    assert_eq!(
        app.command_history,
        vec!["ls".to_string(), "pwd".to_string(), "xyz".to_string()]
    );
}

#[test]
fn padded_submission_echoes_untrimmed_but_dispatches_trimmed() {
    let mut app = fresh();
    submit_text(&mut app, " ls ");
    assert_eq!(
        app.history,
        vec![
            "banner".to_string(),
            format!("{} ls ", PROMPT),
            "Documents\tLibrary\tMusic\tPublic\tDesktop".to_string(),
            "Downloads\tMovies\tPictures".to_string(),
        ]
    );
    assert_eq!(app.command_history, vec!["ls".to_string()]);
}

#[test]
fn execute_command_records_and_dispatches() {
    let mut app = fresh();
    app.execute_command("help");
    assert_eq!(
        app.history,
        vec![
            "banner".to_string(),
            "Available commands: ls, pwd, about, help".to_string(),
        ]
    );
    assert_eq!(app.command_history, vec!["help".to_string()]);
    assert_eq!(app.history_index, None);
}

#[test]
fn execute_command_trims_before_recording_and_dispatching() {
    let mut app = fresh();
    app.execute_command(" ls ");
    assert_eq!(
        app.history,
        vec![
            "banner".to_string(),
            "Documents\tLibrary\tMusic\tPublic\tDesktop".to_string(),
            "Downloads\tMovies\tPictures".to_string(),
        ]
    );
    assert_eq!(app.command_history, vec!["ls".to_string()]);
}

#[test]
fn execute_command_whitespace_only_is_a_noop_beyond_cursor() {
    let mut app = fresh();
    app.history_index = None;
    app.execute_command(" \t ");
    assert_eq!(app.history, vec!["banner".to_string()]);
    assert!(app.command_history.is_empty());
    assert_eq!(app.history_index, None);
}

#[test]
fn execute_command_empty_does_nothing_but_reset_cursor() {
    let mut app = fresh();
    app.execute_command("ls");
    app.history_index = Some(0);
    app.execute_command("");
    assert_eq!(app.command_history, vec!["ls".to_string()]);
    assert_eq!(app.history_index, None);
    assert_eq!(app.history.len(), 3);
}

#[test]
fn recall_previous_walks_history_to_floor() {
    let mut app = fresh();
    submit_text(&mut app, "ls");
    submit_text(&mut app, "pwd");
    submit_text(&mut app, "about");

    app.recall_previous();
    assert_eq!(app.input, "about");
    assert_eq!(app.history_index, Some(2));
    app.recall_previous();
    assert_eq!(app.input, "pwd");
    assert_eq!(app.history_index, Some(1));
    app.recall_previous();
    assert_eq!(app.input, "ls");
    assert_eq!(app.history_index, Some(0));
    app.recall_previous();
    assert_eq!(app.input, "ls");
    assert_eq!(app.history_index, Some(0));
}

#[test]
fn recall_next_steps_back_up_and_clears() {
    let mut app = fresh();
    submit_text(&mut app, "ls");
    submit_text(&mut app, "pwd");
    submit_text(&mut app, "about");
    for _ in 0..4 {
        app.recall_previous();
    }
    assert_eq!(app.input, "ls");

    app.recall_next();
    assert_eq!(app.input, "pwd");
    assert_eq!(app.history_index, Some(1));
    app.recall_next();
    assert_eq!(app.input, "about");
    assert_eq!(app.history_index, Some(2));
    app.recall_next();
    assert_eq!(app.input, "");
    assert_eq!(app.history_index, None);
}

#[test]
fn recall_on_empty_history_is_a_noop() {
    let mut app = fresh();
    app.recall_previous();
    assert_eq!(app.input, "");
    assert_eq!(app.history_index, None);
    app.recall_next();
    assert_eq!(app.input, "");
    assert_eq!(app.history_index, None);
}

#[test]
fn submission_resets_recall_cursor() {
    let mut app = fresh();
    submit_text(&mut app, "ls");
    submit_text(&mut app, "pwd");
    app.recall_previous();
    assert_eq!(app.input, "pwd");
    assert_eq!(app.history_index, Some(1));

    app.submit();
    assert_eq!(app.history_index, None);
    assert_eq!(app.input, "");
    assert_eq!(
        app.command_history,
        vec!["ls".to_string(), "pwd".to_string(), "pwd".to_string()]
    );
}
