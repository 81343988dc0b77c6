//! The command-line tool's own logic: names, the Dockerfile of a package,
//! and the description of a job for the local Docker engine.

use crate::encoding::{base64_decoded, base64_encoded, decode_base64, encode_base64, string_from_utf8};
use crate::builtins::ServiceState;
use crate::value::FunctionExt;
use std::path::PathBuf;
use vstd::prelude::*;

verus! {

/// The characters that `char::to_uppercase` gives for a character: one
/// for most, more for some (`ß` gives `SS`).
pub uninterp spec fn char_upper(c: char) -> Seq<char>;

/// `char::to_uppercase`, collected into a string: the uppercase form of the
/// character, which the Unicode tables define and which is named
/// `char_upper`.
#[verifier::external_body]
fn to_uppercase_string(c: char) -> (r: String)
    ensures
        r@ == char_upper(c),
{
    c.to_uppercase().collect()
}

/// Whether `char::is_alphanumeric` holds of a character, by the Unicode
/// tables.
pub uninterp spec fn char_alphanumeric(c: char) -> bool;

/// `char::is_alphanumeric`: whether the character is alphabetic or numeric
/// in Unicode, named `char_alphanumeric`.
#[verifier::external_body]
pub(crate) fn is_alphanumeric(c: char) -> (r: bool)
    ensures
        r == char_alphanumeric(c),
{
    c.is_alphanumeric()
}

/// The string with its first character in uppercase.
pub open spec fn capitalized(s: Seq<char>) -> Seq<char> {
    if s.len() == 0 {
        Seq::empty()
    } else {
        char_upper(s[0]) + s.drop_first()
    }
}

/// Returns the string with its first character in uppercase.
pub fn uppercase_first_letter(s: &str) -> (r: String)
    ensures
        r@ == capitalized(s@),
{
    let n = s.unicode_len();
    if n == 0 {
        return String::new();
    }
    let mut r = to_uppercase_string(s.get_char(0));
    r.append(s.substring_char(1, n));
    r
}

/// The errors of the tool's checks.
#[derive(Debug)]
pub enum UtilError {
    /// A name for a package or function holds a character other than a
    /// letter, a digit or an underscore.
    InvalidBakeryName { name: String },
}

/// Whether a name is valid: letters, digits and underscores only.
pub open spec fn valid_bakery_name(name: Seq<char>) -> bool {
    forall|i: int| 0 <= i < name.len() ==> char_alphanumeric(#[trigger] name[i]) || name[i] == '_'
}

/// Checks that a name holds only letters, digits and underscores.
pub fn assert_valid_bakery_name(name: &str) -> (r: Result<(), UtilError>)
    ensures
        match r {
            Ok(_) => valid_bakery_name(name@),
            Err(UtilError::InvalidBakeryName { name: n }) => !valid_bakery_name(name@) && n@ == name@,
        },
{
    let n = name.unicode_len();
    let mut i: usize = 0;
    while i < n
        invariant
            i <= n,
            n == name@.len(),
            forall|j: int| 0 <= j < i ==> char_alphanumeric(#[trigger] name@[j]) || name@[j] == '_',
        decreases n - i,
    {
        let c = name.get_char(i);
        if !(is_alphanumeric(c) || c == '_') {
            return Err(UtilError::InvalidBakeryName { name: String::from_str(name) });
        }
        i = i + 1;
    }
    Ok(())
}

/// Where the JuiceFS archive is downloaded from.
pub open spec fn juice_url() -> Seq<char> {
    "https://github.com/juicedata/juicefs/releases/download/v0.12.1/juicefs-0.12.1-linux-amd64.tar.gz"@
}

/// The Dockerfile of a package whose functions an OpenAPI document
/// describes; the branelet comes from the build folder where it is
/// overridden, and from `branelet_url` otherwise.
pub open spec fn oas_dockerfile(override_branelet: bool, branelet_url: Seq<char>) -> Seq<char> {
    "# Generated by Brane\n"@ + "FROM alpine\n"@ + "RUN apk add --no-cache iptables\n"@ + (if override_branelet {
        "ADD branelet branelet\n"@
    } else {
        "ADD "@ + branelet_url + " branelet\n"@
    }) + "RUN chmod +x branelet\n"@ + "ADD "@ + juice_url() + " juicefs.tar.gz\n"@
        + "RUN tar -xzf juicefs.tar.gz && rm juicefs.tar.gz && mkdir /data\n"@ + "ADD wd.tar.gz /opt\n"@
        + "WORKDIR /opt/wd\n"@ + "ENTRYPOINT [\"/branelet\"]\n"@
}

/// Writes the Dockerfile of a package whose functions an OpenAPI document
/// describes.
pub fn generate_dockerfile(override_branelet: bool, branelet_url: &str) -> (r: String)
    ensures
        r@ == oas_dockerfile(override_branelet, branelet_url@),
{
    let mut contents = String::from_str("# Generated by Brane\n");
    contents.append("FROM alpine\n");
    contents.append("RUN apk add --no-cache iptables\n");
    if override_branelet {
        contents.append("ADD branelet branelet\n");
    } else {
        contents.append("ADD ");
        contents.append(branelet_url);
        contents.append(" branelet\n");
    }
    contents.append("RUN chmod +x branelet\n");
    contents.append("ADD ");
    contents.append("https://github.com/juicedata/juicefs/releases/download/v0.12.1/juicefs-0.12.1-linux-amd64.tar.gz");
    contents.append(" juicefs.tar.gz\n");
    contents.append("RUN tar -xzf juicefs.tar.gz && rm juicefs.tar.gz && mkdir /data\n");
    contents.append("ADD wd.tar.gz /opt\n");
    contents.append("WORKDIR /opt/wd\n");
    contents.append("ENTRYPOINT [\"/branelet\"]\n");
    proof {
        assert(contents@ =~= oas_dockerfile(override_branelet, branelet_url@));
    }
    contents
}

/// Runs external functions in containers on the local Docker engine, with
/// the data folder, if any, mounted.
#[derive(Debug, Clone)]
pub struct DockerExecutor {
    pub data: Option<PathBuf>,
}

impl DockerExecutor {
    /// Makes an executor.
    pub fn new(data: Option<PathBuf>) -> (r: DockerExecutor)
        ensures
            r.data == data,
    {
        DockerExecutor { data }
    }
}

/// A container to run: its image, the file that holds the image, the
/// mounts, and the command.
#[derive(Debug, Clone)]
pub struct ExecuteInfo {
    pub command: Option<Vec<String>>,
    pub image: String,
    pub image_file: Option<PathBuf>,
    pub mounts: Option<Vec<String>>,
}

impl ExecuteInfo {
    /// Makes a container description.
    pub fn new(image: String, image_file: Option<PathBuf>, mounts: Option<Vec<String>>, command: Option<Vec<String>>) -> (r: ExecuteInfo)
        ensures
            r.image == image,
            r.image_file == image_file,
            r.mounts == mounts,
            r.command == command,
    {
        ExecuteInfo { command, image, image_file, mounts }
    }
}

/// The command that runs a package function in its container: the
/// branelet in debug mode, with fixed application, location and job, the
/// package kind, the function and its arguments (encoded).
pub open spec fn job_command(kind: Seq<char>, function: Seq<char>, arguments: Seq<char>) -> Seq<Seq<char>> {
    seq![
        "-d"@,
        "--application-id"@,
        "test"@,
        "--location-id"@,
        "localhost"@,
        "--job-id"@,
        "1"@,
        kind,
        function,
        arguments,
    ]
}

/// Makes the command that runs a package function in its container, with
/// the arguments' JSON text encoded in Base64.
pub fn docker_command(kind: &str, function: &str, arguments_json: &str) -> (r: Vec<String>)
    requires
        arguments_json@.len() * 6 + 4 <= isize::MAX,
    ensures
        r@.map_values(|s: String| s@) == job_command(kind@, function@, base64_encoded(arguments_json@)),
{
    let arguments = encode_base64(arguments_json);
    let mut v: Vec<String> = Vec::new();
    v.push(String::from_str("-d"));
    v.push(String::from_str("--application-id"));
    v.push(String::from_str("test"));
    v.push(String::from_str("--location-id"));
    v.push(String::from_str("localhost"));
    v.push(String::from_str("--job-id"));
    v.push(String::from_str("1"));
    v.push(String::from_str(kind));
    v.push(String::from_str(function));
    v.push(arguments);
    proof {
        assert(v@.map_values(|s: String| s@) =~= job_command(kind@, function@, base64_encoded(arguments_json@)));
    }
    v
}

/// The image of a package: its name and version.
pub fn image_name(name: &str, version: &str) -> (r: String)
    ensures
        r@ == name@ + ":"@ + version@,
{
    crate::objects::join3(name, ":", version)
}

/// The mount of the data folder at `/data`; a path with a colon cannot be
/// mounted.
pub fn data_mount(path: &str) -> (r: Option<String>)
    ensures
        match r {
            None => exists|i: int| 0 <= i < path@.len() && path@[i] == ':',
            Some(m) => m@ == path@ + ":/data"@ && forall|i: int| 0 <= i < path@.len() ==> path@[i] != ':',
        },
{
    let n = path.unicode_len();
    let mut i: usize = 0;
    while i < n
        invariant
            i <= n,
            n == path@.len(),
            forall|j: int| 0 <= j < i ==> path@[j] != ':',
        decreases n - i,
    {
        if path.get_char(i) == ':' {
            return None;
        }
        i = i + 1;
    }
    let mut m = String::from_str(path);
    m.append(":/data");
    Some(m)
}

/// The kinds of package.
#[derive(Debug, Clone, Copy, PartialEq, Eq, Structural)]
pub enum PackageKind {
    /// Code in a container.
    Ecu,
    /// A workflow in the language.
    Dsl,
    /// A CWL workflow.
    Cwl,
    /// An OpenAPI document.
    Oas,
}

/// The text holds the other text somewhere.
pub open spec fn contains_text(s: Seq<char>, t: Seq<char>) -> bool {
    exists|i: int| 0 <= i && i + t.len() <= s.len() && #[trigger] s.subrange(i, i + t.len()) == t
}

/// Returns whether the text holds the other text somewhere.
pub fn text_contains(s: &str, t: &str) -> (r: bool)
    ensures
        r == contains_text(s@, t@),
{
    let n = s.unicode_len();
    let m = t.unicode_len();
    if m > n {
        proof {
            assert forall|i: int| 0 <= i && i + t@.len() <= s@.len() implies #[trigger] s@.subrange(i, i + t@.len()) != t@ by {}
        }
        return false;
    }
    let mut i: usize = 0;
    while i <= n - m
        invariant
            n == s@.len(),
            m == t@.len(),
            m <= n,
            i <= n - m + 1,
            forall|k: int| 0 <= k < i ==> #[trigger] s@.subrange(k, k + m) != t@,
        decreases n - i,
    {
        let mut j: usize = 0;
        let mut same = true;
        while j < m
            invariant
                n == s@.len(),
                m == t@.len(),
                i + m <= n,
                j <= m,
                same == (forall|k: int| 0 <= k < j ==> s@[i + k] == t@[k]),
            decreases m - j,
        {
            if s.get_char(i + j) != t.get_char(j) {
                same = false;
            }
            j = j + 1;
        }
        if same {
            proof {
                assert(s@.subrange(i as int, i + m) =~= t@);
            }
            return true;
        }
        proof {
            let k = choose|k: int| 0 <= k < m && s@[i + k] != t@[k];
            assert(s@.subrange(i as int, i + m)[k] != t@[k]);
        }
        i = i + 1;
    }
    false
}

/// The kind of package a file's name and extension tell: a container file
/// holds code, and a `.bk` file a workflow, whatever their case.
pub open spec fn kind_of_name(file_name: Option<Seq<char>>, extension: Option<Seq<char>>) -> Option<PackageKind> {
    if file_name matches Some(f) && (crate::job::str_lower(f) == "container.yml"@ || crate::job::str_lower(f) == "container.yaml"@) {
        Some(PackageKind::Ecu)
    } else if extension matches Some(e) && crate::job::str_lower(e) == "bk"@ {
        Some(PackageKind::Dsl)
    } else {
        None
    }
}

/// Tells the kind of a package by its file's name and extension, if they
/// tell it.
pub fn kind_from_name(file_name: Option<&str>, extension: Option<&str>) -> (r: Option<PackageKind>)
    ensures
        r == kind_of_name(
            match file_name {
                Some(f) => Some(f@),
                None => None,
            },
            match extension {
                Some(e) => Some(e@),
                None => None,
            },
        ),
{
    match file_name {
        Some(f) => {
            let lower = crate::job::to_lowercase_string(f);
            if crate::globals::str_eq(lower.as_str(), "container.yml") || crate::globals::str_eq(lower.as_str(), "container.yaml") {
                return Some(PackageKind::Ecu);
            }
        },
        None => {},
    }
    match extension {
        Some(e) => {
            let lower = crate::job::to_lowercase_string(e);
            if crate::globals::str_eq(lower.as_str(), "bk") {
                return Some(PackageKind::Dsl);
            }
        },
        None => {},
    }
    None
}

/// Tells the kind of a package by its file's contents: a CWL workflow names
/// its version, and an OpenAPI document its own.
pub fn kind_from_content(content: &str) -> (r: Option<PackageKind>)
    ensures
        r == (if contains_text(content@, "cwlVersion"@) {
            Some(PackageKind::Cwl)
        } else if contains_text(content@, "openapi"@) {
            Some(PackageKind::Oas)
        } else {
            None
        }),
{
    if text_contains(content, "cwlVersion") {
        Some(PackageKind::Cwl)
    } else if text_contains(content, "openapi") {
        Some(PackageKind::Oas)
    } else {
        None
    }
}

/// The text ends with the other text.
pub open spec fn ends_with_text(s: Seq<char>, t: Seq<char>) -> bool {
    t.len() <= s.len() && s.subrange(s.len() - t.len(), s.len() as int) == t
}

/// Returns whether the text ends with the other text.
fn text_ends_with(s: &str, t: &str) -> (r: bool)
    ensures
        r == ends_with_text(s@, t@),
{
    let n = s.unicode_len();
    let m = t.unicode_len();
    if m > n {
        return false;
    }
    let tail = s.substring_char(n - m, n);
    crate::globals::str_eq(tail, t)
}

/// A file that describes a package: a container file, a workflow, or a CWL
/// document, by its name in lowercase.
pub open spec fn package_file_name(name: Seq<char>) -> bool {
    let lower = crate::job::str_lower(name);
    ||| lower == "container.yml"@
    ||| lower == "container.yaml"@
    ||| ends_with_text(lower, ".bk"@)
    ||| ends_with_text(lower, ".cwl"@)
}

/// Returns whether a file's name is that of a package's description, and
/// the name in lowercase.
pub fn is_package_file(name: &str) -> (r: (bool, String))
    ensures
        r.0 == package_file_name(name@),
        r.1@ == crate::job::str_lower(name@),
{
    let lower = crate::job::to_lowercase_string(name);
    let l = lower.as_str();
    let ok = crate::globals::str_eq(l, "container.yml") || crate::globals::str_eq(l, "container.yaml") || text_ends_with(l, ".bk")
        || text_ends_with(l, ".cwl");
    (ok, lower)
}

/// Why the output of a job could not be read.
#[derive(Debug)]
pub enum EncodeDecodeError {
    /// The output is no Base64.
    Base64DecodeError { err: base64::DecodeError },
    /// The bytes of the output are no UTF-8.
    Utf8DecodeError { err: std::string::FromUtf8Error },
}

/// Why a call of a package function in a container failed after it ran.
#[derive(Debug)]
pub enum ExecutorError {
    /// The container exited with another code than zero.
    ExternalCallFailed { name: String, package: String, version: String, code: i32, stdout: String, stderr: String },
    /// The last line of the container's output could not be decoded.
    OutputDecodeError { name: String, package: String, version: String, stdout: String, err: EncodeDecodeError },
}

/// The position of the text's last line break, or -1 where it has none.
pub open spec fn last_break(s: Seq<char>) -> int
    decreases s.len(),
{
    if s.len() == 0 {
        -1
    } else if s.last() == '\n' {
        s.len() - 1
    } else {
        last_break(s.drop_last())
    }
}

/// The last line of the text, as `str::lines` splits it: a final line
/// break ends the last line rather than starting an empty one, and a
/// carriage return before a line break belongs to the break; empty where
/// the text is.
pub open spec fn last_line_of(s: Seq<char>) -> Seq<char> {
    if s.len() == 0 {
        Seq::empty()
    } else if s.last() == '\n' {
        let body = s.drop_last();
        let line = body.subrange(last_break(body) + 1, body.len() as int);
        if line.len() > 0 && line.last() == '\r' {
            line.drop_last()
        } else {
            line
        }
    } else {
        s.subrange(last_break(s) + 1, s.len() as int)
    }
}

/// Where no line break follows position `i`, and one stands just before
/// it or `i` is the start, the text's last line break is just before `i`.
proof fn lemma_last_break(t: Seq<char>, i: int)
    requires
        0 <= i <= t.len(),
        forall|k: int| i <= k < t.len() ==> t[k] != '\n',
        i == 0 || t[i - 1] == '\n',
    ensures
        last_break(t) == i - 1,
    decreases t.len(),
{
    if t.len() > i {
        lemma_last_break(t.drop_last(), i);
    }
}

/// Returns the last line of the text, as `str::lines` splits it.
pub fn last_line(s: &str) -> (r: String)
    ensures
        r@ == last_line_of(s@),
{
    let n = s.unicode_len();
    if n == 0 {
        return String::new();
    }
    let terminated = s.get_char(n - 1) == '\n';
    let mut end: usize = if terminated {
        n - 1
    } else {
        n
    };
    let ghost body = s@.subrange(0, end as int);
    let mut i: usize = end;
    while i > 0 && s.get_char(i - 1) != '\n'
        invariant
            n == s@.len(),
            end <= n,
            i <= end,
            body == s@.subrange(0, end as int),
            forall|k: int| i <= k < end ==> s@[k] != '\n',
        decreases i,
    {
        i = i - 1;
    }
    proof {
        lemma_last_break(body, i as int);
        if terminated {
            assert(s@.drop_last() =~= body);
        } else {
            assert(body =~= s@);
        }
    }
    if terminated && end > i && s.get_char(end - 1) == '\r' {
        end = end - 1;
        proof {
            assert(s@.subrange(i as int, end as int) =~= body.subrange(i as int, body.len() as int).drop_last());
        }
    }
    String::from_str(s.substring_char(i, end))
}

/// The text of a job's output from the result of decoding its Base64: the
/// decoder's error, or the decoded bytes as UTF-8 text.
pub fn output_from_decoded(decoded: Result<Vec<u8>, base64::DecodeError>) -> (r: Result<String, EncodeDecodeError>)
    ensures
        match decoded {
            Err(e) => r matches Err(EncodeDecodeError::Base64DecodeError { err }) && err == e,
            Ok(bytes) => match r {
                Ok(text) => vstd::utf8::valid_utf8(bytes@) && text@ == vstd::utf8::decode_utf8(bytes@),
                Err(EncodeDecodeError::Utf8DecodeError { .. }) => !vstd::utf8::valid_utf8(bytes@),
                Err(_) => false,
            },
        },
{
    match decoded {
        Err(err) => Err(EncodeDecodeError::Base64DecodeError { err }),
        Ok(bytes) => match string_from_utf8(bytes) {
            Ok(text) => Ok(text),
            Err(err) => Err(EncodeDecodeError::Utf8DecodeError { err }),
        },
    }
}

/// Decodes a line of a job's output: Base64 whose bytes are UTF-8 text.
pub fn decode_output(line: &str) -> (r: Result<String, EncodeDecodeError>)
    ensures
        match base64_decoded(line@) {
            None => r matches Err(EncodeDecodeError::Base64DecodeError { .. }),
            Some(bytes) => match r {
                Ok(text) => vstd::utf8::valid_utf8(bytes) && text@ == vstd::utf8::decode_utf8(bytes),
                Err(EncodeDecodeError::Utf8DecodeError { .. }) => !vstd::utf8::valid_utf8(bytes),
                Err(_) => false,
            },
        },
{
    output_from_decoded(decode_base64(line))
}

/// What a finished container hands back: an exit code other than zero is
/// a failed call; otherwise the last line of its output, decoded from
/// Base64 and UTF-8, is the text of the call's value.
pub fn completed_call(function: &FunctionExt, code: i32, stdout: String, stderr: String) -> (r: Result<
    String,
    ExecutorError,
>)
    ensures
        code != 0 ==> (match r {
            Err(ExecutorError::ExternalCallFailed { name, package, version, code: c, stdout: o, stderr: e }) => name@
                == function.name@ && package@ == function.package@ && version@ == function.version@ && c == code
                && o@ == stdout@ && e@ == stderr@,
            _ => false,
        }),
        code == 0 ==> match base64_decoded(last_line_of(stdout@)) {
            None => match r {
                Err(ExecutorError::OutputDecodeError { name, package, version, stdout: o, err }) => name@
                    == function.name@ && package@ == function.package@ && version@ == function.version@ && o@
                    == stdout@ && err is Base64DecodeError,
                _ => false,
            },
            Some(bytes) => match r {
                Ok(text) => vstd::utf8::valid_utf8(bytes) && text@ == vstd::utf8::decode_utf8(bytes),
                Err(ExecutorError::OutputDecodeError { name, package, version, stdout: o, err }) => name@
                    == function.name@ && package@ == function.package@ && version@ == function.version@ && o@
                    == stdout@ && err is Utf8DecodeError && !vstd::utf8::valid_utf8(bytes),
                _ => false,
            },
        },
{
    if code != 0 {
        return Err(
            ExecutorError::ExternalCallFailed {
                name: function.name.clone(),
                package: function.package.clone(),
                version: function.version.clone(),
                code,
                stdout,
                stderr,
            },
        );
    }
    let line = last_line(stdout.as_str());
    match decode_output(line.as_str()) {
        Ok(text) => Ok(text),
        Err(err) => Err(
            ExecutorError::OutputDecodeError {
                name: function.name.clone(),
                package: function.package.clone(),
                version: function.version.clone(),
                stdout,
                err,
            },
        ),
    }
}

/// Whether waiting for a service in the state means waiting for its
/// container: a started service is taken as reached at once, so that a
/// wait never blocks the program that started it.
pub fn waits_for_container(state: ServiceState) -> (r: bool)
    ensures
        r == !(state is Started),
{
    match state {
        ServiceState::Started => false,
        _ => true,
    }
}

} // verus!
