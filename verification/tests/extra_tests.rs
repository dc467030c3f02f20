use shellver::ErrKind;
use shellver::Failure;
use shellver::HOP_CEILING;
use shellver::Shell;
use shellver::classify;
use shellver::ppid_from_text;
use shellver::shell_from_pid_with;
use shellver::shell_version_with;

fn read_mock(text: &str) -> Result<String, Failure> {
    Ok(text.to_string())
}

fn run_echo(name: &str, _args: &[String]) -> Result<Vec<u8>, Failure> {
    Ok(name.as_bytes().to_vec())
}

#[test]
fn catalog_order_and_contents() {
    let shells = Shell::supported_shells();
    let expected = vec![
        "bash", "zsh", "sh", "tcsh", "csh", "ksh", "mksh", "fish", "dash", "nu", "elvish",
        "xonsh", "pwsh",
    ];
    assert_eq!(shells, expected);
}

#[test]
fn classify_known_yields_descriptor() {
    let d = classify("bash").unwrap();
    assert_eq!(d.name, "bash");
    assert_eq!(d.invocation, Some(vec!["--version".to_string()]));
    assert_eq!(d.pattern, "[0-9]+\\.[0-9]+(?:\\.[0-9]+)?");
}

#[test]
fn classify_unknown_yields_none() {
    assert!(classify("bash-completion-helper").is_none());
    assert!(classify("Bash").is_none());
    assert!(classify("").is_none());
}

#[test]
fn classify_dash_has_no_invocation() {
    let d = classify("dash").unwrap();
    assert_eq!(d.name, "dash");
    assert!(d.invocation.is_none());
}

#[test]
fn classify_mksh_uses_builtin_variable() {
    let d = classify("mksh").unwrap();
    assert_eq!(
        d.invocation,
        Some(vec!["-c".to_string(), "echo $KSH_VERSION".to_string()])
    );
    assert_eq!(d.pattern, "R[0-9]+");
}

#[test]
fn ppid_token_whitespace_is_trimmed() {
    let val = ppid_from_text("PPid:\t 123 \n").unwrap();
    assert_eq!(val, 123);
}

#[test]
fn ppid_largest_value_parses() {
    let val = ppid_from_text("PPid:\t4294967295\n").unwrap();
    assert_eq!(val, 4294967295);
}

#[test]
fn ppid_overflowing_value_is_invalid() {
    let err = ppid_from_text("PPid:\t4294967296\n").unwrap_err();
    assert_eq!(err.kind(), ErrKind::InvalidData);
}

#[test]
fn ppid_empty_token_is_invalid() {
    let err = ppid_from_text("PPid:\n").unwrap_err();
    assert_eq!(err.kind(), ErrKind::InvalidData);
}

#[test]
fn ppid_first_labelled_line_wins() {
    let val = ppid_from_text("PPid:\t5\nPPid:\t7\n").unwrap();
    assert_eq!(val, 5);
}

#[test]
fn ppid_label_must_start_a_line() {
    let err = ppid_from_text("xPPid:\t5").unwrap_err();
    assert_eq!(err.kind(), ErrKind::NotFound);
}

#[test]
fn shell_name_without_newline_matches() {
    let val = shell_from_pid_with("zsh", read_mock).unwrap();
    assert_eq!(val, Some("zsh".to_string()));
}

#[test]
fn shell_name_prefix_does_not_match() {
    let val = shell_from_pid_with("bash-completion-helper\n", read_mock).unwrap();
    assert_eq!(val, None);
}

#[test]
fn version_extraction_is_idempotent() {
    let first = shell_version_with("fish, version 3.7.1", run_echo).unwrap();
    let second = shell_version_with("fish, version 3.7.1", run_echo).unwrap();
    assert_eq!(first, Some("3.7.1".to_string()));
    assert_eq!(first, second);
}

#[test]
fn invalid_output_bytes_fail_for_any_shell() {
    fn run_bad(_name: &str, _args: &[String]) -> Result<Vec<u8>, Failure> {
        Ok(vec![0xc0, 0x80])
    }

    let err = shell_version_with("zsh", run_bad).unwrap_err();
    assert_eq!(err.kind(), ErrKind::InvalidData);
    let err = shell_version_with("fish", run_bad).unwrap_err();
    assert_eq!(err.kind(), ErrKind::InvalidData);
}

#[test]
fn release_tag_scenario_extracts_tag() {
    fn run_banner(_name: &str, _args: &[String]) -> Result<Vec<u8>, Failure> {
        Ok(b"@(#)MIRBSD KSH R59 2020/10/31".to_vec())
    }

    let val = shell_version_with("mksh", run_banner).unwrap();
    assert_eq!(val, Some("R59".to_string()));
}

#[test]
fn detect_stops_at_closest_shell() {
    fn read_nested(path: &str) -> Result<String, Failure> {
        match path {
            "/proc/self/status" => Ok("PPid:\t200\n".to_string()),
            "/proc/200/comm" => Ok("zsh\n".to_string()),
            "/proc/200/status" => Ok("PPid:\t100\n".to_string()),
            "/proc/100/comm" => Ok("bash\n".to_string()),
            _ => Err(Failure::new(ErrKind::InvalidInput, "bad path")),
        }
    }

    let shell = Shell::detect_with(read_nested, run_echo).unwrap();
    assert_eq!(shell.name(), "zsh");
}

#[test]
fn detect_walks_to_outer_shell() {
    fn read_chain(path: &str) -> Result<String, Failure> {
        match path {
            "/proc/self/status" => Ok("PPid:\t300\n".to_string()),
            "/proc/300/comm" => Ok("helper\n".to_string()),
            "/proc/300/status" => Ok("PPid:\t200\n".to_string()),
            "/proc/200/comm" => Ok("make\n".to_string()),
            "/proc/200/status" => Ok("PPid:\t100\n".to_string()),
            "/proc/100/comm" => Ok("fish\n".to_string()),
            _ => Err(Failure::new(ErrKind::InvalidInput, "bad path")),
        }
    }

    fn run_fish(_name: &str, _args: &[String]) -> Result<Vec<u8>, Failure> {
        Ok(b"fish, version 3.7.1".to_vec())
    }

    let shell = Shell::detect_with(read_chain, run_fish).unwrap();
    assert_eq!(shell.name(), "fish");
    assert_eq!(shell.version(), Some("3.7.1".to_string()));
}

#[test]
fn detect_hits_hop_ceiling() {
    assert_eq!(HOP_CEILING, 32);

    fn read_endless(path: &str) -> Result<String, Failure> {
        if path == "/proc/self/status" {
            return Ok("PPid:\t100\n".to_string());
        }
        if path.ends_with("/comm") {
            return Ok("proc\n".to_string());
        }
        // Every status record names the same parent: an endless chain.
        Ok("PPid:\t100\n".to_string())
    }

    let err = Shell::detect_with(read_endless, run_echo).unwrap_err();
    assert_eq!(err.kind(), ErrKind::NotFound);
}

#[test]
fn detect_reaches_root_without_shell() {
    fn read_to_root(path: &str) -> Result<String, Failure> {
        match path {
            "/proc/self/status" => Ok("PPid:\t2\n".to_string()),
            "/proc/2/comm" => Ok("init-helper\n".to_string()),
            "/proc/2/status" => Ok("PPid:\t1\n".to_string()),
            _ => Err(Failure::new(ErrKind::InvalidInput, "bad path")),
        }
    }

    let err = Shell::detect_with(read_to_root, run_echo).unwrap_err();
    assert_eq!(err.kind(), ErrKind::NotFound);
    assert_eq!(err.message(), "shell not found");
}

#[test]
fn detect_propagates_malformed_ancestor() {
    fn read_malformed(path: &str) -> Result<String, Failure> {
        match path {
            "/proc/self/status" => Ok("PPid:\t50\n".to_string()),
            "/proc/50/comm" => Ok("helper\n".to_string()),
            "/proc/50/status" => Ok("PPid:\tnot-a-number\n".to_string()),
            _ => Err(Failure::new(ErrKind::InvalidInput, "bad path")),
        }
    }

    let err = Shell::detect_with(read_malformed, run_echo).unwrap_err();
    assert_eq!(err.kind(), ErrKind::InvalidData);
}

#[test]
fn every_catalog_name_classifies_to_its_descriptor() {
    for name in Shell::supported_shells() {
        let d = classify(name).unwrap();
        assert_eq!(d.name, name);
    }
}

#[test]
fn detect_dash_yields_name_without_version() {
    fn read_dash(path: &str) -> Result<String, Failure> {
        match path {
            "/proc/self/status" => Ok("PPid:\t100\n".to_string()),
            "/proc/100/comm" => Ok("dash\n".to_string()),
            _ => Err(Failure::new(ErrKind::InvalidInput, "bad path")),
        }
    }

    fn run_never(_name: &str, _args: &[String]) -> Result<Vec<u8>, Failure> {
        unreachable!("dash must never be probed");
    }

    let shell = Shell::detect_with(read_dash, run_never).unwrap();
    assert_eq!(shell.name(), "dash");
    assert_eq!(shell.version(), None);
}

#[test]
fn failure_carries_kind_and_message() {
    let f = Failure::new(ErrKind::Other, "something odd");
    assert_eq!(f.kind(), ErrKind::Other);
    assert_eq!(f.message(), "something odd");
}
