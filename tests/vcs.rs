use vim_review::vcs::{CommandOutput, VcsError, VcsType};

#[test]
fn detect_prefers_git() {
    assert_eq!(VcsType::detect(true, true), Ok(VcsType::Git));
    assert_eq!(VcsType::detect(false, true), Ok(VcsType::Mercurial));
    assert_eq!(VcsType::detect(false, false), Err(VcsError::NotARepository));
}

#[test]
fn git_commands() {
    let g = VcsType::Git;
    assert_eq!(g.marker_dir(), ".git");
    let c = g.diff_command(true, None).unwrap();
    assert_eq!(c.program, "git");
    assert_eq!(c.args, vec!["diff", "HEAD"]);
    assert_eq!(g.diff_command(true, Some("main..feature")).unwrap().args, vec!["diff", "main..feature"]);
    assert_eq!(g.diff_command(true, Some("HEAD")).unwrap().args, vec!["show", "HEAD"]);
    assert_eq!(g.diff_command(false, None), Err(VcsError::MissingRepository(VcsType::Git)));
}

#[test]
fn mercurial_commands() {
    let h = VcsType::Mercurial;
    assert_eq!(h.marker_dir(), ".hg");
    let c = h.diff_command(true, None).unwrap();
    assert_eq!(c.program, "hg");
    assert_eq!(c.args, vec!["diff"]);
    assert_eq!(h.diff_command(true, Some("a::b")).unwrap().args, vec!["log", "-p", "-r", "a::b"]);
    assert_eq!(h.diff_command(true, Some("12")).unwrap().args, vec!["export", "12"]);
}

#[test]
fn command_output_becomes_diff_or_error() {
    let ok = CommandOutput { success: true, stdout: String::from("diff"), stderr: String::new() };
    assert_eq!(VcsType::Git.get_diff(ok), Ok(String::from("diff")));
    let bad = CommandOutput { success: false, stdout: String::new(), stderr: String::from("boom") };
    assert_eq!(
        VcsType::Mercurial.get_diff(bad),
        Err(VcsError::CommandFailed(VcsType::Mercurial, String::from("boom")))
    );
}
