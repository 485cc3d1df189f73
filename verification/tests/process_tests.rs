use isekai::process::{
    is_process_running, normalize_process_names, process_list, process_list_command,
    process_matches, ps_process_names, strip_exe, tasklist_process_names, unix_process_list,
    tasklist_process_list, CommandOutput, TargetOs,
};

fn strings(v: &[&str]) -> Vec<String> {
    v.iter().map(|s| s.to_string()).collect()
}

fn output(success: bool, stdout: &str, stderr: &str) -> CommandOutput {
    CommandOutput {
        success,
        stdout: stdout.as_bytes().to_vec(),
        stderr: stderr.as_bytes().to_vec(),
    }
}

#[test]
fn strip_exe_removes_only_a_final_exe() {
    assert_eq!(strip_exe("sky.exe"), "sky");
    assert_eq!(strip_exe("Sky.EXE"), "Sky.EXE");
    assert_eq!(strip_exe("sky"), "sky");
    assert_eq!(strip_exe(".exe"), "");
    assert_eq!(strip_exe("exe"), "exe");
    assert_eq!(strip_exe("a.exe.exe"), "a.exe");
}

#[test]
fn normalize_trims_unquotes_lowers_and_drops_empty() {
    let names = strings(&["  \"Sky.exe\"  ", "", "   ", "\"\"", "ÉCLAIR", "Sky"]);
    assert_eq!(normalize_process_names(names), strings(&["sky.exe", "Éclair", "sky"]));
}

#[test]
fn normalize_keeps_inner_space_after_quotes() {
    // Quotes are removed after the white space, so space inside them stays.
    let names = strings(&["\" Sky \""]);
    assert_eq!(normalize_process_names(names), strings(&[" sky "]));
}

#[test]
fn process_matches_by_file_name_and_without_exe() {
    let names = strings(&["sky.exe"]);
    assert!(process_matches("Sky.exe", &names));
    assert!(process_matches("sky", &names));
    assert!(process_matches("/Applications/Sky.app/Contents/MacOS/Sky", &names));
    assert!(process_matches("C:\\Games\\Sky\\SKY.EXE", &names));
    assert!(!process_matches("skyline", &names));
    assert!(!process_matches("sky.exe/", &names));
}

#[test]
fn process_matches_with_no_names_is_false() {
    assert!(!process_matches("sky", &[]));
}

#[test]
fn law_path_matches_as_file_name_example() {
    let names = strings(&["sky"]);
    assert_eq!(
        process_matches("/usr/local/bin/sky", &names),
        process_matches("sky", &names)
    );
    assert_eq!(
        process_matches("D:\\x\\Other", &names),
        process_matches("Other", &names)
    );
}

#[test]
fn law_matching_ignores_ascii_case_example() {
    let names = strings(&["sky.exe"]);
    assert_eq!(process_matches("SKY.EXE", &names), process_matches("sky.exe", &names));
    assert!(process_matches("SkY", &names));
}

#[test]
fn is_process_running_without_names_ignores_the_list() {
    let r = is_process_running(strings(&["  ", "\"\""]), Err("boom".to_string()));
    assert_eq!(r, Ok(false));
}

#[test]
fn is_process_running_reports_list_errors() {
    let r = is_process_running(strings(&["sky"]), Err("boom".to_string()));
    assert_eq!(r, Err("boom".to_string()));
}

#[test]
fn is_process_running_finds_a_match() {
    let ps = strings(&["bash", "/opt/Sky/Sky"]);
    assert_eq!(is_process_running(strings(&["Sky.exe"]), Ok(ps.clone())), Ok(true));
    assert_eq!(is_process_running(strings(&["zsh"]), Ok(ps)), Ok(false));
}

#[test]
fn ps_output_is_read_line_by_line() {
    let names = ps_process_names(b"/sbin/launchd\n  /usr/bin/zsh  \n\n/\nSky\r\n");
    assert_eq!(names, strings(&["launchd", "zsh", "Sky"]));
}

#[test]
fn ps_output_keeps_last_line_without_newline() {
    assert_eq!(ps_process_names(b"a\nb"), strings(&["a", "b"]));
    assert_eq!(ps_process_names(b""), Vec::<String>::new());
}

#[test]
fn ps_output_with_invalid_utf8_is_read_lossily() {
    let names = ps_process_names(b"/bin/a\xffb\n");
    assert_eq!(names, strings(&["a\u{fffd}b"]));
}

#[test]
fn tasklist_output_reads_first_column() {
    let out = b"\"Sky.exe\",\"1234\",\"Console\",\"1\",\"100 K\"\r\n\"explorer.exe\",\"1\"\r\n,\"x\"\r\n";
    assert_eq!(tasklist_process_names(out), strings(&["Sky.exe", "explorer.exe"]));
}

#[test]
fn unix_process_list_errors() {
    assert_eq!(
        unix_process_list(Err("no such file".to_string())),
        Err("failed to run ps: no such file".to_string())
    );
    assert_eq!(
        unix_process_list(Ok(output(false, "", "  ps: bad option \n"))),
        Err("ps: bad option".to_string())
    );
    assert_eq!(
        unix_process_list(Ok(output(true, "/bin/ps\n", ""))),
        Ok(strings(&["ps"]))
    );
}

#[test]
fn tasklist_process_list_errors() {
    assert_eq!(
        tasklist_process_list(Err("denied".to_string())),
        Err("failed to run tasklist: denied".to_string())
    );
    assert_eq!(
        tasklist_process_list(Ok(output(false, "", "\tERROR\r\n"))),
        Err("ERROR".to_string())
    );
}

#[test]
fn process_list_by_platform() {
    assert_eq!(process_list(TargetOs::Other, None), Ok(Vec::new()));
    assert_eq!(
        process_list(TargetOs::Linux, Some(Ok(output(true, "/usr/bin/sky\n", "")))),
        Ok(strings(&["sky"]))
    );
    assert_eq!(
        process_list(TargetOs::Windows, Some(Ok(output(true, "\"a.exe\",\"1\"\n", "")))),
        Ok(strings(&["a.exe"]))
    );
    assert_eq!(
        process_list(TargetOs::MacOs, Some(Err("x".to_string()))),
        Err("failed to run ps: x".to_string())
    );
}

#[test]
fn process_list_commands() {
    let w = process_list_command(TargetOs::Windows).unwrap();
    assert_eq!(w.program, "tasklist");
    assert_eq!(w.args, strings(&["/FO", "CSV", "/NH"]));
    let l = process_list_command(TargetOs::Linux).unwrap();
    assert_eq!(l.program, "ps");
    assert_eq!(l.args, strings(&["-axo", "comm="]));
    assert!(process_list_command(TargetOs::MacOs).is_some());
    assert!(process_list_command(TargetOs::Other).is_none());
}
