use flox_app::launch::{credentials_step, is_flox_temp, is_flox_temp_on, CredentialsStep};

#[test]
fn credentials_steps() {
    let creds = Some((42, "hash".to_owned()));
    assert_eq!(credentials_step(true, creds.clone()), CredentialsStep::Restart(42, "hash".to_owned()));
    assert_eq!(credentials_step(true, None), CredentialsStep::Close);
    assert_eq!(credentials_step(false, creds), CredentialsStep::Start);
    assert_eq!(credentials_step(false, None), CredentialsStep::Off);
}

#[test]
fn only_flox_folders_are_swept() {
    let sys = "/var/tmp";
    assert!(is_flox_temp("/var/tmp/flox", sys));
    assert!(is_flox_temp("/home/me/.flox/temp", sys));
    assert!(!is_flox_temp("/var/tmp", sys), "the temp folder");
    assert!(!is_flox_temp("/var", sys), "an ancestor");
    assert!(!is_flox_temp("/", sys));
    assert!(!is_flox_temp("/var/tmp/other", sys));
    let win = r"C:\Users\me\AppData\Local\Temp";
    assert!(is_flox_temp_on(r"C:\Users\me\AppData\Local\Temp\flox", win, true));
}

#[test]
fn trailing_separators_and_case_do_not_matter() {
    assert!(!is_flox_temp("/var/tmp/", "/var/tmp"));
    assert!(is_flox_temp("/var/tmp/FLOX/", "/var/tmp"));
    assert!(!is_flox_temp("/var/tmp/flox/..", "/var/tmp"));
}

#[test]
fn a_leading_dot_is_a_component() {
    assert!(is_flox_temp("./flox", "flox"));
    assert!(!is_flox_temp("./flox", "./flox"));
    assert!(!is_flox_temp("a/./flox", "a/flox"));
}

#[test]
fn backslashes_separate_only_on_windows() {
    assert!(!is_flox_temp_on(r"tmp\flox", "tmp", false));
    assert!(is_flox_temp_on(r"tmp\flox", "tmp", true));
    assert!(!is_flox_temp_on(r"C:\Temp", r"C:\Temp\x", true), "an ancestor");
}

#[test]
fn a_drive_prefix_leads_a_windows_path() {
    assert!(is_flox_temp_on("C:flox", r"C:\Temp", true));
    assert!(!is_flox_temp_on(r"c:\Temp", r"C:\Temp\flox", true), "an ancestor, drive letters in either case");
    assert!(is_flox_temp_on(r"D:\Temp", r"C:\Temp\x", true), "another drive");
    assert!(!is_flox_temp_on(r"C:\Temp", r"C:\Temp\x", true));
}
