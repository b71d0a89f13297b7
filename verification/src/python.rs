use vstd::prelude::*;
use vstd::utf8::{decode_utf8, valid_utf8};

use crate::text::{
    decimal, ends_with, ends_with_spec, format_i32, lemma_decimal_has_no_dot, starts_with,
    starts_with_spec, trim, trim_spec,
};

verus! {

/// The views of a sequence of string slices.
pub open spec fn str_views(v: Seq<&str>) -> Seq<Seq<char>> {
    v.map_values(|s: &str| s@)
}

/// Appends the string slices of `extra` to `args`.
fn push_all<'a>(args: &mut Vec<&'a str>, extra: Vec<&'a str>)
    ensures
        str_views(final(args)@) == str_views(old(args)@) + str_views(extra@),
{
    let ghost start = args@;
    let n = extra.len();
    for i in 0..n
        invariant
            n == extra@.len(),
            args@ == start + extra@.subrange(0, i as int),
    {
        args.push(extra[i]);
        assert(args@ =~= start + extra@.subrange(0, i + 1));
    }
    assert(extra@.subrange(0, n as int) =~= extra@);
    assert(str_views(args@) =~= str_views(start) + str_views(extra@));
}

/// Arguments shared by every `uv` invocation: run inside the application's
/// data directory and never use uv's cache.
pub open spec fn base_args_spec(appdata_dir: Seq<char>) -> Seq<Seq<char>> {
    seq!["--directory"@, appdata_dir, "--no-cache"@]
}

/// Returns the arguments shared by every `uv` invocation.
pub fn get_base_args<'a>(appdata_dir: &'a str) -> (args: Vec<&'a str>)
    ensures
        str_views(args@) == base_args_spec(appdata_dir@),
{
    let args = vec!["--directory", appdata_dir, "--no-cache"];
    assert(str_views(args@) =~= base_args_spec(appdata_dir@));
    args
}

/// Appends `.exe` to an executable's name when the target is Windows.
pub fn file_extension(s: &str, windows: bool) -> (r: String)
    ensures
        r@ == if windows {
            s@ + ".exe"@
        } else {
            s@
        },
{
    let r = String::from_str(s);
    if windows {
        r.concat(".exe")
    } else {
        r
    }
}

/// `uv add` of the given packages into the project in `appdata_dir`, using
/// the Python interpreter installed in `python_dir` and never downloading one.
pub open spec fn add_args_spec(
    appdata_dir: Seq<char>,
    python_dir: Seq<char>,
    packages: Seq<Seq<char>>,
) -> Seq<Seq<char>> {
    seq!["add"@] + packages + seq!["--no-python-downloads"@, "--python"@, python_dir]
        + base_args_spec(appdata_dir)
}

/// The arguments of the `uv` call that installs packages.
pub fn uv_add_args<'a>(appdata_dir: &'a str, python_dir: &'a str, packages: Vec<&'a str>) -> (args:
    Vec<&'a str>)
    ensures
        str_views(args@) == add_args_spec(appdata_dir@, python_dir@, str_views(packages@)),
{
    let mut args = vec!["add"];
    push_all(&mut args, packages);
    push_all(&mut args, vec!["--no-python-downloads", "--python", python_dir]);
    push_all(&mut args, get_base_args(appdata_dir));
    proof {
        let tail: Seq<&str> = seq!["--no-python-downloads", "--python", python_dir];
        assert(str_views(tail) =~= seq!["--no-python-downloads"@, "--python"@, python_dir@]);
        assert(str_views(seq!["add"]) =~= seq!["add"@]);
    }
    args
}

/// `uv sync` of the project in `appdata_dir`.
pub open spec fn sync_args_spec(appdata_dir: Seq<char>) -> Seq<Seq<char>> {
    seq!["sync"@] + base_args_spec(appdata_dir)
}

/// The arguments of the `uv` call that synchronises the installed packages.
pub fn uv_sync_args<'a>(appdata_dir: &'a str) -> (args: Vec<&'a str>)
    ensures
        str_views(args@) == sync_args_spec(appdata_dir@),
{
    let mut args = vec!["sync"];
    push_all(&mut args, get_base_args(appdata_dir));
    assert(str_views(seq!["sync"]) =~= seq!["sync"@]);
    args
}

/// The version requirement written for a Python version: compatible releases.
pub open spec fn version_requirement_spec(python_version: Seq<char>) -> Seq<char> {
    "~="@ + python_version
}

/// Returns the version requirement for a Python version (`~=` and the version).
pub fn python_version_requirement(python_version: &str) -> (r: String)
    ensures
        r@ == version_requirement_spec(python_version@),
{
    String::from_str("~=").concat(python_version)
}

/// `uv init` of a bare project named `aperio-env` in `appdata_dir`.
pub open spec fn init_args_spec(appdata_dir: Seq<char>, requirement: Seq<char>) -> Seq<Seq<char>> {
    seq![
        "init"@,
        "--python"@,
        requirement,
        "--bare"@,
        "--author-from"@,
        "none"@,
        "--name"@,
        "aperio-env"@,
    ] + base_args_spec(appdata_dir)
}

/// The arguments of the `uv` call that creates the Python project.
pub fn uv_init_args<'a>(appdata_dir: &'a str, requirement: &'a str) -> (args: Vec<&'a str>)
    ensures
        str_views(args@) == init_args_spec(appdata_dir@, requirement@),
{
    let mut args = vec![
        "init",
        "--python",
        requirement,
        "--bare",
        "--author-from",
        "none",
        "--name",
        "aperio-env",
    ];
    let ghost head = args@;
    push_all(&mut args, get_base_args(appdata_dir));
    assert(str_views(head) =~= seq![
        "init"@,
        "--python"@,
        requirement@,
        "--bare"@,
        "--author-from"@,
        "none"@,
        "--name"@,
        "aperio-env"@,
    ]);
    args
}

/// `uv python install` of the given version into `appdata_dir`, without
/// linking executables.
pub open spec fn python_install_args_spec(appdata_dir: Seq<char>, python_version: Seq<char>) -> Seq<
    Seq<char>,
> {
    seq![
        "python"@,
        "install"@,
        "--no-bin"@,
        "--install-dir"@,
        appdata_dir,
        "--project"@,
        appdata_dir,
        python_version,
    ] + base_args_spec(appdata_dir)
}

/// The arguments of the `uv` call that installs the Python interpreter.
pub fn uv_python_install_args<'a>(appdata_dir: &'a str, python_version: &'a str) -> (args: Vec<
    &'a str,
>)
    ensures
        str_views(args@) == python_install_args_spec(appdata_dir@, python_version@),
{
    let mut args = vec![
        "python",
        "install",
        "--no-bin",
        "--install-dir",
        appdata_dir,
        "--project",
        appdata_dir,
        python_version,
    ];
    let ghost head = args@;
    push_all(&mut args, get_base_args(appdata_dir));
    assert(str_views(head) =~= seq![
        "python"@,
        "install"@,
        "--no-bin"@,
        "--install-dir"@,
        appdata_dir@,
        "--project"@,
        appdata_dir@,
        python_version@,
    ]);
    args
}

/// The directory that `uv python install` creates starts with `cpython`.
pub open spec fn is_cpython_dir_spec(name: Seq<char>) -> bool {
    starts_with_spec(name, "cpython"@)
}

/// The bundled OpenCV wheel: `opencv_python_headless…​.whl`.
pub open spec fn is_opencv_wheel_spec(name: Seq<char>) -> bool {
    starts_with_spec(name, "opencv_python_headless"@) && ends_with_spec(name, ".whl"@)
}

/// Whether a directory entry is the Python installation made by `uv`.
pub fn is_cpython_dir(name: &str) -> (b: bool)
    ensures
        b == is_cpython_dir_spec(name@),
{
    starts_with(name, "cpython")
}

/// Whether a file name is that of the bundled OpenCV wheel.
pub fn is_opencv_wheel(name: &str) -> (b: bool)
    ensures
        b == is_opencv_wheel_spec(name@),
{
    starts_with(name, "opencv_python_headless") && ends_with(name, ".whl")
}

/// The position of the first name that `uv`'s Python installation directory
/// can have, if any.
pub fn find_cpython_dir(names: &Vec<String>) -> (r: Option<usize>)
    ensures
        match r {
            Some(i) => i < names@.len() && is_cpython_dir_spec(names@[i as int]@) && forall|j: int|
                0 <= j < i ==> !is_cpython_dir_spec(#[trigger] names@[j]@),
            None => forall|j: int|
                0 <= j < names@.len() ==> !is_cpython_dir_spec(#[trigger] names@[j]@),
        },
{
    let n = names.len();
    for i in 0..n
        invariant
            n == names@.len(),
            forall|j: int| 0 <= j < i ==> !is_cpython_dir_spec(#[trigger] names@[j]@),
    {
        if is_cpython_dir(names[i].as_str()) {
            return Some(i);
        }
    }
    None
}

/// The position of the first name of the bundled OpenCV wheel, if any.
pub fn find_opencv_wheel(names: &Vec<String>) -> (r: Option<usize>)
    ensures
        match r {
            Some(i) => i < names@.len() && is_opencv_wheel_spec(names@[i as int]@) && forall|j: int|
                0 <= j < i ==> !is_opencv_wheel_spec(#[trigger] names@[j]@),
            None => forall|j: int|
                0 <= j < names@.len() ==> !is_opencv_wheel_spec(#[trigger] names@[j]@),
        },
{
    let n = names.len();
    for i in 0..n
        invariant
            n == names@.len(),
            forall|j: int| 0 <= j < i ==> !is_opencv_wheel_spec(#[trigger] names@[j]@),
    {
        if is_opencv_wheel(names[i].as_str()) {
            return Some(i);
        }
    }
    None
}

/// Decodes bytes as UTF-8 (std's `String::from_utf8`): `None` exactly when
/// the bytes are not valid UTF-8, otherwise the decoded characters.
#[verifier::external_body]
fn string_from_utf8(bytes: Vec<u8>) -> (r: Option<String>)
    ensures
        r is Some <==> valid_utf8(bytes@),
        r matches Some(s) ==> s@ == decode_utf8(bytes@),
{
    String::from_utf8(bytes).ok()
}

/// Why the output of a command could not be used.
#[derive(Debug, Clone, PartialEq, Eq)]
pub enum CommandError {
    /// The command exited unsuccessfully; its error output follows the message prefix.
    Failed(String),
    /// The command wrote bytes that are not UTF-8.
    NotUtf8,
}

/// The message of a failed `uv` call: a prefix and the command's error output.
pub open spec fn failure_message(stderr: Seq<char>) -> Seq<char> {
    "Command failed with status: "@ + stderr
}

/// Interprets the end of a `uv` call: its standard output when it succeeded,
/// otherwise its error output in the failure message; an output that is not
/// UTF-8 is an error.
pub fn uv_command_result(success: bool, stdout: Vec<u8>, stderr: Vec<u8>) -> (r: Result<
    String,
    CommandError,
>)
    ensures
        success ==> match r {
            Ok(out) => valid_utf8(stdout@) && out@ == decode_utf8(stdout@),
            Err(e) => !valid_utf8(stdout@) && e is NotUtf8,
        },
        !success ==> match r {
            Ok(_) => false,
            Err(CommandError::Failed(msg)) => valid_utf8(stderr@) && msg@ == failure_message(
                decode_utf8(stderr@),
            ),
            Err(CommandError::NotUtf8) => !valid_utf8(stderr@),
        },
{
    if !success {
        match string_from_utf8(stderr) {
            Some(text) => Err(CommandError::Failed(String::from_str("Command failed with status: ").concat(text.as_str()))),
            None => Err(CommandError::NotUtf8),
        }
    } else {
        match string_from_utf8(stdout) {
            Some(text) => Ok(text),
            None => Err(CommandError::NotUtf8),
        }
    }
}

/// Whether the Python runtime is installed, and which version the
/// application embeds.
#[derive(Debug, Clone, PartialEq, Eq)]
pub struct PythonStatus {
    pub installed: bool,
    pub version: Option<String>,
}

/// The version string of the embedded interpreter: `major.minor.micro`.
pub open spec fn version_string_spec(major: i32, minor: i32, micro: i32) -> Seq<char> {
    decimal(major as int) + "."@ + decimal(minor as int) + "."@ + decimal(micro as int)
}

/// Formats the version of the embedded interpreter as `major.minor.micro`.
pub fn python_version_string(major: i32, minor: i32, micro: i32) -> (s: String)
    ensures
        s@ == version_string_spec(major, minor, micro),
{
    format_i32(major).concat(".").concat(format_i32(minor).as_str()).concat(".").concat(
        format_i32(micro).as_str(),
    )
}

/// The status of an installed interpreter whose `--version`-style output is
/// `installed_output`: it counts as installed only when that output, without
/// surrounding white space, is the embedded version.
pub fn installed_python_status(embedded_version: String, installed_output: Vec<u8>) -> (r: Result<
    PythonStatus,
    CommandError,
>)
    ensures
        match r {
            Ok(status) => {
                &&& valid_utf8(installed_output@)
                &&& status.version matches Some(v) && v@ == embedded_version@
                &&& status.installed == (trim_spec(decode_utf8(installed_output@))
                    == embedded_version@)
            },
            Err(e) => !valid_utf8(installed_output@) && e is NotUtf8,
        },
{
    match string_from_utf8(installed_output) {
        Some(text) => {
            let installed = String::from_str(trim(text.as_str()));
            let same = installed == embedded_version;
            Ok(PythonStatus { installed: same, version: Some(embedded_version) })
        },
        None => Err(CommandError::NotUtf8),
    }
}

/// How many times start-up tries to install Python.
pub const MAX_INSTALL_ATTEMPTS: u32 = 3;

/// What start-up does about the Python runtime.
#[derive(Debug, Clone, PartialEq, Eq)]
pub enum StartupAction {
    /// Install this Python version; `fresh` when no interpreter was found at all.
    Install { version: String, fresh: bool },
    /// Go on with the runtime as it is.
    Proceed,
}

/// Decides whether start-up installs Python again: while the runtime is not
/// installed and fewer than three attempts were made, it installs the
/// embedded version, or the configured default when none is known.
pub fn next_install_action(status: &PythonStatus, attempts: u32, default_version: &String) -> (a:
    StartupAction)
    ensures
        (status.installed || attempts >= MAX_INSTALL_ATTEMPTS) ==> a is Proceed,
        (!status.installed && attempts < MAX_INSTALL_ATTEMPTS) ==> (a matches StartupAction::Install {
            version,
            fresh,
        } && fresh == (status.version is None) && version@ == match status.version {
            Some(v) => v@,
            None => default_version@,
        }),
{
    if status.installed || attempts >= MAX_INSTALL_ATTEMPTS {
        StartupAction::Proceed
    } else {
        match &status.version {
            Some(v) => StartupAction::Install { version: v.clone(), fresh: false },
            None => StartupAction::Install { version: default_version.clone(), fresh: true },
        }
    }
}

/// The text of the `pyproject.toml` document `text` after toml_edit has set
/// `project.requires-python` to the string `requirement`, as toml_edit writes
/// it back out; `None` when toml_edit cannot parse `text`.
pub uninterp spec fn pyproject_with_requirement(text: Seq<char>, requirement: Seq<char>) -> Option<
    Seq<char>,
>;

/// Whether toml_edit can index `project` of the document `text` as a table:
/// the text does not parse, or its `project` item is absent, a table or an
/// inline table.
pub uninterp spec fn pyproject_project_is_table_like(text: Seq<char>) -> bool;

/// Calls toml_edit: parses `text` as a `DocumentMut` and looks at the item
/// `project` with `Item::is_table_like`. The result is named, not described.
#[verifier::external_body]
fn toml_project_is_table_like(text: &str) -> (b: bool)
    ensures
        b == pyproject_project_is_table_like(text@),
{
    match text.parse::<toml_edit::DocumentMut>() {
        Ok(doc) => doc.get("project").map_or(true, toml_edit::Item::is_table_like),
        Err(_) => true,
    }
}

/// Calls toml_edit: parses `text` as a `DocumentMut`, assigns
/// `doc["project"]["requires-python"] = toml_edit::value(requirement)` and
/// renders the document with `to_string`. The result is named, not
/// described; toml_edit's indexing panics when `project` is not table-like,
/// which `requires` rules out.
#[verifier::external_body]
fn toml_set_requires_python(text: &str, requirement: &str) -> (r: Option<String>)
    requires
        pyproject_project_is_table_like(text@),
    ensures
        match r {
            Some(s) => pyproject_with_requirement(text@, requirement@) == Some(s@),
            None => pyproject_with_requirement(text@, requirement@) is None,
        },
{
    let mut doc = text.parse::<toml_edit::DocumentMut>().ok()?;
    doc["project"]["requires-python"] = toml_edit::value(requirement);
    Some(doc.to_string())
}

/// Sets `project.requires-python` of a `pyproject.toml` to the compatible
/// release requirement for `python_version`; `None` when the text is not TOML.
pub fn set_requires_python(pyproject: &str, python_version: &str) -> (r: Option<String>)
    requires
        pyproject_project_is_table_like(pyproject@),
    ensures
        match r {
            Some(s) => pyproject_with_requirement(
                pyproject@,
                version_requirement_spec(python_version@),
            ) == Some(s@),
            None => pyproject_with_requirement(
                pyproject@,
                version_requirement_spec(python_version@),
            ) is None,
        },
{
    let requirement = python_version_requirement(python_version);
    toml_set_requires_python(pyproject, requirement.as_str())
}

/// Why `pyproject.toml` could not be updated.
#[derive(Debug, Clone, PartialEq, Eq)]
pub enum PyprojectError {
    /// The file is not TOML.
    InvalidToml,
    /// The file's `project` item is not a table.
    ProjectNotTable,
}

/// Updates `project.requires-python` of a `pyproject.toml` for
/// `python_version`, refusing a file whose `project` item is not a table.
pub fn update_pyproject(pyproject: &str, python_version: &str) -> (r: Result<String, PyprojectError>)
    ensures
        !pyproject_project_is_table_like(pyproject@) <==> r matches Err(
            PyprojectError::ProjectNotTable,
        ),
        pyproject_project_is_table_like(pyproject@) ==> match r {
            Ok(s) => pyproject_with_requirement(
                pyproject@,
                version_requirement_spec(python_version@),
            ) == Some(s@),
            Err(e) => e is InvalidToml && pyproject_with_requirement(
                pyproject@,
                version_requirement_spec(python_version@),
            ) is None,
        },
{
    if !toml_project_is_table_like(pyproject) {
        return Err(PyprojectError::ProjectNotTable);
    }
    match set_requires_python(pyproject, python_version) {
        Some(s) => Ok(s),
        None => Err(PyprojectError::InvalidToml),
    }
}

/// The `uv add` line names every package, in order and none dropped, between
/// `add` and the interpreter options, whatever the number of packages.
pub proof fn lemma_add_args_list_every_package(
    appdata_dir: Seq<char>,
    python_dir: Seq<char>,
    packages: Seq<Seq<char>>,
)
    ensures
        ({
            let a = add_args_spec(appdata_dir, python_dir, packages);
            &&& a.len() == packages.len() + 7
            &&& a[0] == "add"@
            &&& a.subrange(1, 1 + packages.len() as int) == packages
            &&& a.subrange(1 + packages.len() as int, a.len() as int) == seq![
                "--no-python-downloads"@,
                "--python"@,
                python_dir,
                "--directory"@,
                appdata_dir,
                "--no-cache"@,
            ]
        }),
{
    let a = add_args_spec(appdata_dir, python_dir, packages);
    let head: Seq<Seq<char>> = seq!["add"@];
    let tail: Seq<Seq<char>> = seq![
        "--no-python-downloads"@,
        "--python"@,
        python_dir,
        "--directory"@,
        appdata_dir,
        "--no-cache"@,
    ];
    assert(a =~= head + packages + tail);
    assert(a[0] == head[0]);
    assert(a.subrange(1, 1 + packages.len() as int) =~= packages);
    assert(a.subrange(1 + packages.len() as int, a.len() as int) =~= seq![
        "--no-python-downloads"@,
        "--python"@,
        python_dir,
        "--directory"@,
        appdata_dir,
        "--no-cache"@,
    ]);
}

/// The requirement is `~=` followed by the whole version, for every version.
pub proof fn lemma_requirement_keeps_whole_version(python_version: Seq<char>)
    ensures
        ({
            let r = version_requirement_spec(python_version);
            &&& r.len() == python_version.len() + 2
            &&& r[0] == '~'
            &&& r[1] == '='
            &&& r.subrange(2, r.len() as int) == python_version
        }),
{
    reveal_strlit("~=");
    let r = version_requirement_spec(python_version);
    assert(r.subrange(2, r.len() as int) =~= python_version);
}

/// The embedded version string has exactly three parts separated by the only
/// two dots in it: major, minor and micro, each in decimal.
pub proof fn lemma_version_string_three_parts(major: i32, minor: i32, micro: i32)
    ensures
        ({
            let s = version_string_spec(major, minor, micro);
            let a = decimal(major as int);
            let b = decimal(minor as int);
            let c = decimal(micro as int);
            let first = a.len() as int;
            let second: int = (a.len() + 1 + b.len()) as int;
            &&& s.len() == second + 1 + c.len()
            &&& forall|i: int| 0 <= i < s.len() ==> (s[i] == '.' <==> (i == first || i == second))
            &&& s.subrange(0, first) == a
            &&& s.subrange(first + 1, second) == b
            &&& s.subrange(second + 1, s.len() as int) == c
        }),
{
    reveal_strlit(".");
    lemma_decimal_has_no_dot(major as int);
    lemma_decimal_has_no_dot(minor as int);
    lemma_decimal_has_no_dot(micro as int);
    let s = version_string_spec(major, minor, micro);
    let a = decimal(major as int);
    let b = decimal(minor as int);
    let c = decimal(micro as int);
    let first = a.len() as int;
    let second: int = (a.len() + 1 + b.len()) as int;
    assert(s =~= a + seq!['.'] + b + seq!['.'] + c);
    assert forall|i: int| 0 <= i < s.len() implies (s[i] == '.' <==> (i == first || i
        == second)) by {
        if i < first {
            assert(s[i] == a[i]);
        } else if first < i < second {
            assert(s[i] == b[i - first - 1]);
        } else if i > second {
            assert(s[i] == c[i - second - 1]);
        }
    }
    assert(s.subrange(0, first) =~= a);
    assert(s.subrange(first + 1, second) =~= b);
    assert(s.subrange(second + 1, s.len() as int) =~= c);
}

} // verus!
