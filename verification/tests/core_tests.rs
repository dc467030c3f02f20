use shellver::ErrKind;
use shellver::Failure;
use shellver::Shell;
use shellver::ppid_from_path_with;
use shellver::shell_from_pid_with;
use shellver::shell_version_with;

fn run_mock(name: &str, _args: &[String]) -> Result<Vec<u8>, Failure> {
    if name.is_empty() {
        return Err(Failure::new(ErrKind::InvalidInput, "name empty"));
    }
    if name == "bad_utf" {
        return Ok(vec![0xff, 0xfe]);
    }
    Ok(name.as_bytes().to_vec())
}

fn read_mock(text: &str) -> Result<String, Failure> {
    Ok(text.to_string())
}

fn read_mock_err(_path: &str) -> Result<String, Failure> {
    Err(Failure::new(ErrKind::PermissionDenied, "deny"))
}

#[test]
fn lib_shell_from_pid_returns_some() {
    let val = shell_from_pid_with("bash\n", read_mock).unwrap();
    assert_eq!(val, Some("bash".to_string()));
}

#[test]
fn lib_shell_from_pid_returns_none() {
    let val = shell_from_pid_with("unknown\n", read_mock).unwrap();
    assert_eq!(val, None);
}

#[test]
fn lib_ppid_from_path_parse_ok() {
    let val = ppid_from_path_with("Name:\tbash\nPPid:\t123\n", read_mock).unwrap();
    assert_eq!(val, 123);
}

#[test]
fn lib_ppid_from_path_missing() {
    let err = ppid_from_path_with("Name:\tbash\n", read_mock).unwrap_err();
    assert_eq!(err.kind(), ErrKind::NotFound);
}

#[test]
fn lib_ppid_from_path_parse_error() {
    let err = ppid_from_path_with("Name:\tbash\nPPid:\tbad\n", read_mock).unwrap_err();
    assert_eq!(err.kind(), ErrKind::InvalidData);
}

#[test]
fn lib_ppid_from_path_read_error() {
    let err = ppid_from_path_with("/proc/1/status", read_mock_err).unwrap_err();
    assert_eq!(err.kind(), ErrKind::PermissionDenied);
}

#[test]
fn lib_shell_version_on_invalid_command() {
    let err = shell_version_with("", run_mock).unwrap_err();
    assert_eq!(err.kind(), ErrKind::InvalidInput);
}

#[test]
fn lib_shell_version_on_invalid_input() {
    let err = shell_version_with("bad_utf", run_mock).unwrap_err();
    assert_eq!(err.kind(), ErrKind::InvalidData);
}

#[test]
fn lib_shell_version_returns_none() {
    let val = shell_version_with("no version here", run_mock).unwrap();
    assert_eq!(val, None);
}

#[test]
fn shell_version_returns_some() {
    let val = shell_version_with("bash 5.2.0", run_mock).unwrap();
    assert_eq!(val, Some("5.2.0".to_string()));
}

fn read_detect_ok(path: &str) -> Result<String, Failure> {
    match path {
        "/proc/self/status" => Ok("PPid:\t100\n".to_string()),
        "/proc/100/comm" => Ok("bash\n".to_string()),
        _ => Err(Failure::new(ErrKind::InvalidInput, "bad path")),
    }
}

fn read_detect_not_found(path: &str) -> Result<String, Failure> {
    match path {
        "/proc/self/status" => Ok("PPid:\t100\n".to_string()),
        "/proc/100/comm" => Ok("unknown\n".to_string()),
        "/proc/100/status" => Ok("PPid:\t1\n".to_string()),
        _ => Err(Failure::new(ErrKind::InvalidInput, "bad path")),
    }
}

fn read_detect_err(path: &str) -> Result<String, Failure> {
    match path {
        "/proc/self/status" => Err(Failure::new(ErrKind::PermissionDenied, "deny")),
        _ => Err(Failure::new(ErrKind::InvalidInput, "bad path")),
    }
}

fn read_detect_run_err(path: &str) -> Result<String, Failure> {
    match path {
        "/proc/self/status" => Ok("PPid:\t100\n".to_string()),
        "/proc/100/comm" => Ok("bash\n".to_string()),
        _ => Err(Failure::new(ErrKind::InvalidInput, "bad path")),
    }
}

fn run_detect_ok(_name: &str, _args: &[String]) -> Result<Vec<u8>, Failure> {
    Ok(b"bash 5.2.0".to_vec())
}

fn run_detect_err(_name: &str, _args: &[String]) -> Result<Vec<u8>, Failure> {
    Err(Failure::new(ErrKind::InvalidInput, "bad cmd"))
}

#[test]
fn lib_detect_with_ok() {
    let shell = Shell::detect_with(read_detect_ok, run_detect_ok).unwrap();
    assert_eq!(shell.name(), "bash");
    assert_eq!(shell.version(), Some("5.2.0".to_string()));
}

#[test]
fn lib_detect_with_not_found() {
    let err = Shell::detect_with(read_detect_not_found, run_detect_ok).unwrap_err();
    assert_eq!(err.kind(), ErrKind::NotFound);
}

#[test]
fn lib_detect_with_read_error() {
    let err = Shell::detect_with(read_detect_err, run_detect_ok).unwrap_err();
    assert_eq!(err.kind(), ErrKind::PermissionDenied);
}

#[test]
fn lib_detect_with_run_error() {
    let err = Shell::detect_with(read_detect_run_err, run_detect_err).unwrap_err();
    assert_eq!(err.kind(), ErrKind::InvalidInput);
}
