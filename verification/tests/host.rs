use ptr_plugins::error::Error;
use ptr_plugins::host::{
    get_powertoys_path, kill_failure, kill_ptr, powertoys_candidates, start_failure, start_ptr,
    HostCommand,
};

#[test]
fn stopping_the_host() {
    assert_eq!(
        kill_ptr(true),
        HostCommand {
            program: "taskkill.exe".to_string(),
            args: "/F /FI \"IMAGENAME eq PowerToys*\"".to_string(),
            admin: true,
            wait: true,
        }
    );
    assert!(!kill_ptr(false).admin);
}

#[test]
fn starting_the_host() {
    assert_eq!(
        start_ptr("C:/Program Files/PowerToys/PowerToys.exe"),
        HostCommand {
            program: "C:/Program Files/PowerToys/PowerToys.exe".to_string(),
            args: String::new(),
            admin: false,
            wait: false,
        }
    );
}

#[test]
fn host_failures() {
    assert_eq!(
        kill_failure("access denied"),
        Error::ProcessError("Failed to kill PowerToys: access denied".to_string())
    );
    assert_eq!(
        start_failure("not found"),
        Error::ProcessError("Failed to start PowerToys: not found".to_string())
    );
}

#[test]
fn candidates_for_the_executable() {
    assert_eq!(
        powertoys_candidates("C:\\Program Files", "C:\\Users\\u\\AppData\\Local\\"),
        vec![
            "C:\\Program Files\\PowerToys\\PowerToys.exe".to_string(),
            "C:\\Users\\u\\AppData\\Local\\PowerToys\\PowerToys.exe".to_string(),
        ]
    );
    assert_eq!(
        powertoys_candidates("", "D:/apps/"),
        vec!["PowerToys\\PowerToys.exe".to_string(), "D:/apps/PowerToys\\PowerToys.exe".to_string()]
    );
}

#[test]
fn first_existing_candidate() {
    let candidates = vec!["a".to_string(), "b".to_string(), "c".to_string()];
    assert_eq!(get_powertoys_path(&candidates, &vec![false, true, true]), Some("b".to_string()));
    assert_eq!(get_powertoys_path(&candidates, &vec![true, false, false]), Some("a".to_string()));
    assert_eq!(get_powertoys_path(&candidates, &vec![false, false, false]), None);
    assert_eq!(get_powertoys_path(&candidates, &vec![false]), None);
    assert_eq!(get_powertoys_path(&candidates, &vec![false, false, false, true]), None);
    assert_eq!(get_powertoys_path(&Vec::new(), &Vec::new()), None);
}
