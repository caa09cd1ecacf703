use nvim_wait::script::{session_script, Action};
use nvim_wait::translate::{translate, Command, UsageError};

fn args(tokens: &[&str]) -> Vec<String> {
    tokens.iter().map(|t| t.to_string()).collect()
}

#[test]
fn goto_runs_after_the_file_opens() {
    let t = translate(&args(&["+42", "file.txt"])).unwrap();
    assert_eq!(t.immediate, vec![Command::OpenFile("file.txt".to_string())]);
    assert_eq!(t.deferred, vec![Command::GotoCommand("42".to_string())]);
}

#[test]
fn bare_plus_goes_to_last_line() {
    let t = translate(&args(&["+", "file.txt"])).unwrap();
    assert_eq!(t.immediate, vec![Command::OpenFile("file.txt".to_string())]);
    assert_eq!(t.deferred, vec![Command::GotoCommand("$".to_string())]);
}

#[test]
fn error_file_is_loaded_and_not_awaited() {
    let t = translate(&args(&["-q", "errors.txt", "a.txt"])).unwrap();
    assert_eq!(
        t.immediate,
        vec![
            Command::LoadErrorFile("errors.txt".to_string()),
            Command::OpenFile("a.txt".to_string()),
        ]
    );
    assert!(t.deferred.is_empty());
    assert!(!t.immediate[0].awaits_close());
    assert!(t.immediate[1].awaits_close());
}

#[test]
fn error_flag_without_path_is_a_usage_error() {
    assert_eq!(translate(&args(&["-q"])), Err(UsageError::MissingErrorFile));
    assert_eq!(translate(&args(&["a.txt", "-q"])), Err(UsageError::MissingErrorFile));
}

#[test]
fn empty_arguments_open_one_scratch_buffer() {
    let t = translate(&Vec::new()).unwrap();
    assert_eq!(t.immediate, vec![Command::OpenScratch]);
    assert!(t.deferred.is_empty());
    assert_eq!(t.immediate.iter().filter(|c| c.awaits_close()).count(), 1);
}

#[test]
fn paths_alone_are_each_awaited() {
    let t = translate(&args(&["a.txt", "b.txt", "c.txt"])).unwrap();
    assert_eq!(t.immediate.len(), 3);
    assert!(t.immediate.iter().all(|c| c.awaits_close()));
    assert!(t.deferred.is_empty());
}

#[test]
fn error_file_path_may_look_like_a_flag() {
    let t = translate(&args(&["-q", "+3", "x"])).unwrap();
    assert_eq!(
        t.immediate,
        vec![Command::LoadErrorFile("+3".to_string()), Command::OpenFile("x".to_string())]
    );
    assert!(t.deferred.is_empty());
}

#[test]
fn deferred_commands_keep_their_order() {
    let t = translate(&args(&["+10", "a", "+", "b", "+normal zz"])).unwrap();
    assert_eq!(
        t.deferred,
        vec![
            Command::GotoCommand("10".to_string()),
            Command::GotoCommand("$".to_string()),
            Command::GotoCommand("normal zz".to_string()),
        ]
    );
    assert_eq!(
        t.immediate,
        vec![Command::OpenFile("a".to_string()), Command::OpenFile("b".to_string())]
    );
}

#[test]
fn script_opens_hooks_and_records_before_the_goto() {
    let s = session_script(&args(&["+42", "file.txt"]), "/home/me", 7).unwrap();
    assert_eq!(
        s,
        vec![
            Action::Send(
                "split | lcd /home/me | edit file.txt | setlocal bufhidden=delete".to_string()
            ),
            Action::Send(
                "augroup nvr | autocmd BufDelete <buffer> silent! call rpcnotify(7, \"BufDelete\", bufnr()) | augroup END"
                    .to_string()
            ),
            Action::TrackCurrentBuffer,
            Action::Send("42".to_string()),
        ]
    );
}

#[test]
fn script_of_error_file_sends_cfile_only() {
    let s = session_script(&args(&["-q", "errors.txt", "a.txt"]), "/w", 3).unwrap();
    assert_eq!(s.len(), 4);
    assert_eq!(s[0], Action::Send("split | cfile errors.txt".to_string()));
    assert_eq!(
        s[1],
        Action::Send("split | lcd /w | edit a.txt | setlocal bufhidden=delete".to_string())
    );
    assert_eq!(s[3], Action::TrackCurrentBuffer);
}

#[test]
fn script_of_no_arguments_opens_scratch() {
    let s = session_script(&Vec::new(), "/w", 12).unwrap();
    assert_eq!(
        s,
        vec![
            Action::Send("split | enew | setlocal bufhidden=delete".to_string()),
            Action::Send(
                "augroup nvr | autocmd BufDelete <buffer> silent! call rpcnotify(12, \"BufDelete\", bufnr()) | augroup END"
                    .to_string()
            ),
            Action::TrackCurrentBuffer,
        ]
    );
    assert_eq!(s.iter().filter(|a| **a == Action::TrackCurrentBuffer).count(), 1);
}

#[test]
fn script_reports_usage_error() {
    assert_eq!(
        session_script(&args(&["a", "-q"]), "/w", 1),
        Err(UsageError::MissingErrorFile)
    );
}
