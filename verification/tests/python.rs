use aperio::commands::greet;
use aperio::python::{
    file_extension, find_cpython_dir, find_opencv_wheel, get_base_args, installed_python_status,
    is_cpython_dir, is_opencv_wheel, next_install_action, python_version_requirement,
    python_version_string, set_requires_python, update_pyproject, uv_add_args, uv_command_result,
    uv_init_args, uv_python_install_args, uv_sync_args, CommandError, PyprojectError,
    PythonStatus, StartupAction,
};
use aperio::text::{ends_with, format_i32, starts_with, trim};

#[test]
fn base_args_use_directory_without_cache() {
    assert_eq!(get_base_args("/data"), vec!["--directory", "/data", "--no-cache"]);
}

#[test]
fn file_extension_adds_exe_on_windows_only() {
    assert_eq!(file_extension("uv", true), "uv.exe");
    assert_eq!(file_extension("uv", false), "uv");
    assert_eq!(file_extension("python", true), "python.exe");
}

#[test]
fn add_args_list_packages_then_interpreter() {
    let args = uv_add_args("/d", "/d/python", vec!["a.whl", "numpy"]);
    assert_eq!(
        args,
        vec![
            "add",
            "a.whl",
            "numpy",
            "--no-python-downloads",
            "--python",
            "/d/python",
            "--directory",
            "/d",
            "--no-cache"
        ]
    );
}

#[test]
fn sync_args() {
    assert_eq!(uv_sync_args("/d"), vec!["sync", "--directory", "/d", "--no-cache"]);
}

#[test]
fn init_and_install_args() {
    let req = python_version_requirement("3.12.4");
    assert_eq!(req, "~=3.12.4");
    assert_eq!(
        uv_init_args("/d", &req),
        vec![
            "init",
            "--python",
            "~=3.12.4",
            "--bare",
            "--author-from",
            "none",
            "--name",
            "aperio-env",
            "--directory",
            "/d",
            "--no-cache"
        ]
    );
    assert_eq!(
        uv_python_install_args("/d", "3.12.4"),
        vec![
            "python",
            "install",
            "--no-bin",
            "--install-dir",
            "/d",
            "--project",
            "/d",
            "3.12.4",
            "--directory",
            "/d",
            "--no-cache"
        ]
    );
}

#[test]
fn directory_and_wheel_names() {
    assert!(is_cpython_dir("cpython-3.12.4-linux-x86_64-gnu"));
    assert!(!is_cpython_dir("python"));
    assert!(!is_cpython_dir("cpytho"));
    assert!(is_opencv_wheel("opencv_python_headless-4.10.0-cp37-abi3-manylinux.whl"));
    assert!(!is_opencv_wheel("opencv_python_headless-4.10.0.tar.gz"));
    assert!(!is_opencv_wheel("opencv_python-4.10.0.whl"));
}

#[test]
fn find_first_matching_entries() {
    let names: Vec<String> = vec![".venv", "cpython-3.12", "cpython-3.11"]
        .into_iter()
        .map(String::from)
        .collect();
    assert_eq!(find_cpython_dir(&names), Some(1));
    assert_eq!(find_opencv_wheel(&names), None);
    let wheels: Vec<String> = vec!["readme.txt", "opencv_python_headless-4.whl"]
        .into_iter()
        .map(String::from)
        .collect();
    assert_eq!(find_opencv_wheel(&wheels), Some(1));
    assert_eq!(find_cpython_dir(&Vec::new()), None);
}

#[test]
fn uv_result_success_gives_stdout() {
    let r = uv_command_result(true, b"ok\n".to_vec(), b"warn".to_vec());
    assert_eq!(r, Ok("ok\n".to_string()));
}

#[test]
fn uv_result_failure_gives_stderr_message() {
    let r = uv_command_result(false, b"".to_vec(), b"boom".to_vec());
    assert_eq!(
        r,
        Err(CommandError::Failed("Command failed with status: boom".to_string()))
    );
}

#[test]
fn uv_result_rejects_invalid_utf8() {
    assert_eq!(uv_command_result(true, vec![0xff], vec![]), Err(CommandError::NotUtf8));
    assert_eq!(uv_command_result(false, vec![], vec![0xc3]), Err(CommandError::NotUtf8));
}

#[test]
fn embedded_version_string() {
    assert_eq!(python_version_string(3, 12, 4), "3.12.4");
    assert_eq!(python_version_string(3, 0, 10), "3.0.10");
    assert_eq!(python_version_string(-1, 2147483647, -2147483648), "-1.2147483647.-2147483648");
}

#[test]
fn installed_python_matches_after_trimming() {
    let s = installed_python_status("3.12.4".to_string(), b"3.12.4\n".to_vec()).unwrap();
    assert_eq!(s, PythonStatus { installed: true, version: Some("3.12.4".to_string()) });
}

#[test]
fn installed_python_mismatch_is_not_installed() {
    let s = installed_python_status("3.12.4".to_string(), b" 3.11.2\r\n".to_vec()).unwrap();
    assert_eq!(s, PythonStatus { installed: false, version: Some("3.12.4".to_string()) });
}

#[test]
fn installed_python_output_must_be_utf8() {
    assert_eq!(
        installed_python_status("3.12.4".to_string(), vec![0x80]),
        Err(CommandError::NotUtf8)
    );
}

#[test]
fn install_retries_at_most_three_times() {
    let missing = PythonStatus { installed: false, version: None };
    let default = "3.12.4".to_string();
    assert_eq!(
        next_install_action(&missing, 0, &default),
        StartupAction::Install { version: "3.12.4".to_string(), fresh: true }
    );
    assert_eq!(
        next_install_action(&missing, 2, &default),
        StartupAction::Install { version: "3.12.4".to_string(), fresh: true }
    );
    assert_eq!(next_install_action(&missing, 3, &default), StartupAction::Proceed);
}

#[test]
fn install_prefers_the_embedded_version() {
    let mismatch = PythonStatus { installed: false, version: Some("3.11.9".to_string()) };
    assert_eq!(
        next_install_action(&mismatch, 1, &"3.12.4".to_string()),
        StartupAction::Install { version: "3.11.9".to_string(), fresh: false }
    );
    let ok = PythonStatus { installed: true, version: Some("3.11.9".to_string()) };
    assert_eq!(next_install_action(&ok, 0, &"3.12.4".to_string()), StartupAction::Proceed);
}

#[test]
fn pyproject_requirement_is_set() {
    let text = "[project]\nname = \"aperio-env\"\nversion = \"0.1.0\"\n";
    let updated = update_pyproject(text, "3.12.4").unwrap();
    assert!(updated.contains("requires-python = \"~=3.12.4\""));
    assert!(updated.contains("name = \"aperio-env\""));
}

#[test]
fn pyproject_requirement_is_replaced() {
    let text = "[project]\nrequires-python = \">=3.10\"\n";
    let updated = update_pyproject(text, "3.11.1").unwrap();
    assert!(updated.contains("requires-python = \"~=3.11.1\""));
    assert!(!updated.contains(">=3.10"));
}

#[test]
fn pyproject_without_project_gets_one() {
    let updated = update_pyproject("", "3.12.4").unwrap();
    assert!(updated.contains("project"));
    assert!(updated.contains("~=3.12.4"));
}

#[test]
fn pyproject_errors() {
    assert_eq!(update_pyproject("[project", "3.12.4"), Err(PyprojectError::InvalidToml));
    assert_eq!(update_pyproject("project = 5\n", "3.12.4"), Err(PyprojectError::ProjectNotTable));
    assert_eq!(set_requires_python("[[[", "3.12.4"), None);
}

#[test]
fn greet_answers_with_name() {
    assert_eq!(greet("Ada"), "Hello, Ada! You've been greeted from Rust!");
}

#[test]
fn text_helpers() {
    assert_eq!(trim("  3.12.4\n"), "3.12.4");
    assert_eq!(trim("\u{3000}x y\u{a0}"), "x y");
    assert_eq!(trim(" \t"), "");
    assert!(starts_with("cpython", "cpy"));
    assert!(!starts_with("cp", "cpy"));
    assert!(ends_with("a.whl", ".whl"));
    assert!(!ends_with("whl", ".whl"));
    assert_eq!(format_i32(0), "0");
    assert_eq!(format_i32(-45), "-45");
    assert_eq!(format_i32(i32::MIN), i32::MIN.to_string());
}
