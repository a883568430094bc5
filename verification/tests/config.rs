use cavptool::config::root_directory;
use cavptool::error::HarnessError;

fn args(list: &[&str]) -> Vec<String> {
    list.iter().map(|a| a.to_string()).collect()
}

#[test]
fn root_defaults_to_the_working_directory() {
    assert_eq!(root_directory(&args(&["cavptool"])), Ok(".".to_string()));
    assert_eq!(root_directory(&args(&[])), Ok(".".to_string()));
}

#[test]
fn katdir_selects_the_root() {
    assert_eq!(
        root_directory(&args(&["cavptool", "--katdir", "/srv/kat"])),
        Ok("/srv/kat".to_string())
    );
}

#[test]
fn every_other_form_is_a_usage_error() {
    let bad = Err(HarnessError::UsageError);
    assert_eq!(root_directory(&args(&["cavptool", "--katdir"])), bad);
    assert_eq!(root_directory(&args(&["cavptool", "--katdir", "a", "b"])), bad);
    assert_eq!(root_directory(&args(&["cavptool", "--root", "a"])), bad);
    assert_eq!(root_directory(&args(&["cavptool", "a"])), bad);
}
