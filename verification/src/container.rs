//! Building code packages: the Dockerfile of a package from its container
//! document, and the paths of its files relative to its working directory.
use vstd::prelude::*;

use crate::cli::{contains_text, juice_url, text_contains};

verus! {

/// The errors of preparing a package build.
#[derive(Debug)]
pub enum BuildError {
    /// A path of the package would escape its working directory.
    UnsafePath { path: String },
}

/// The lexically cleaned form of a path, as `path_clean::clean` gives it:
/// repeated slashes merged, `.` elements dropped, `..` elements resolved
/// against the element before them.
pub uninterp spec fn path_cleaned(path: Seq<char>) -> Seq<char>;

/// `path_clean::clean`: the path cleaned lexically, named `path_cleaned`.
#[verifier::external_body]
fn clean_path(path: &str) -> (r: String)
    ensures
        r@ == path_cleaned(path@),
{
    path_clean::clean(path)
}

/// A cleaned path is safe unless it still holds `..`.
pub open spec fn unsafe_path(cleaned: Seq<char>) -> bool {
    contains_text(cleaned, ".."@)
}

/// Checks a cleaned path: it is refused where it still holds `..`, and
/// handed back otherwise.
pub fn check_cleaned(cleaned: String) -> (r: Result<String, BuildError>)
    ensures
        match r {
            Ok(p) => !unsafe_path(cleaned@) && p@ == cleaned@,
            Err(BuildError::UnsafePath { path }) => unsafe_path(cleaned@) && path@ == cleaned@,
        },
{
    if text_contains(cleaned.as_str(), "..") {
        Err(BuildError::UnsafePath { path: cleaned })
    } else {
        Ok(cleaned)
    }
}

/// The path of a package file relative to the working directory: the path
/// cleaned, and refused where the cleaned path would still step out.
pub fn safe_relative_path(path: &str) -> (r: Result<String, BuildError>)
    ensures
        match r {
            Ok(p) => !unsafe_path(path_cleaned(path@)) && p@ == path_cleaned(path@),
            Err(BuildError::UnsafePath { path: q }) => unsafe_path(path_cleaned(path@)) && q@ == path_cleaned(path@),
        },
{
    check_cleaned(clean_path(path))
}

/// What the Dockerfile of a code package is made from, as its container
/// document gives it: the base image, if named, the environment variables
/// in order, the packages it depends on, the entrypoint executable and the
/// commands that install it.
#[derive(Debug, Clone)]
pub struct ContainerSpec {
    pub base: Option<String>,
    pub environment: Vec<(String, String)>,
    pub dependencies: Vec<String>,
    pub entrypoint: String,
    pub install: Vec<String>,
}

/// The base image: the one named, else Ubuntu 20.04.
pub open spec fn base_image(base: Option<String>) -> Seq<char> {
    match base {
        Some(b) => b@,
        None => "ubuntu:20.04"@,
    }
}

/// One `ENV` line for each variable, in order.
pub open spec fn env_lines(env: Seq<(String, String)>) -> Seq<char>
    decreases env.len(),
{
    if env.len() == 0 {
        Seq::empty()
    } else {
        env_lines(env.drop_last()) + "ENV "@ + env.last().0@ + "="@ + env.last().1@ + "\n"@
    }
}

/// Each dependency followed by a space.
pub open spec fn dependency_words(deps: Seq<String>) -> Seq<char>
    decreases deps.len(),
{
    if deps.len() == 0 {
        Seq::empty()
    } else {
        dependency_words(deps.drop_last()) + deps.last()@ + " "@
    }
}

/// One `RUN` line for each installation command, in order.
pub open spec fn run_lines(lines: Seq<String>) -> Seq<char>
    decreases lines.len(),
{
    if lines.len() == 0 {
        Seq::empty()
    } else {
        run_lines(lines.drop_last()) + "RUN "@ + lines.last()@ + "\n"@
    }
}

/// The command that installs packages on the base image: `apk` on Alpine,
/// `apt-get` elsewhere.
pub open spec fn install_command(base: Seq<char>) -> Seq<char> {
    if base.len() >= "alpine"@.len() && base.subrange(0, "alpine"@.len() as int) == "alpine"@ {
        "RUN apk add --no-cache "@
    } else {
        "RUN apt-get update && DEBIAN_FRONTEND=noninteractive apt-get install -y --allow-change-held-packages --allow-downgrades "@
    }
}

/// The lines that fetch the branelet: the one copied in, or the released
/// one.
pub open spec fn branelet_line(override_branelet: bool, branelet_url: Seq<char>) -> Seq<char> {
    if override_branelet {
        "ADD branelet branelet\n"@
    } else {
        "ADD "@ + branelet_url + " branelet\n"@
    }
}

/// The Dockerfile of a code package, up to its base's package installation.
pub open spec fn ecu_head(doc: ContainerSpec) -> Seq<char> {
    "# Generated by Brane\n"@ + "FROM "@ + base_image(doc.base) + "\n"@ + env_lines(doc.environment@)
        + install_command(base_image(doc.base)) + "fuse iptables "@ + dependency_words(doc.dependencies@) + "\n"@
}

/// The Dockerfile of a code package.
pub open spec fn ecu_dockerfile(doc: ContainerSpec, override_branelet: bool, branelet_url: Seq<char>) -> Seq<char> {
    ecu_head(doc) + branelet_line(override_branelet, branelet_url) + "RUN chmod +x branelet\n"@ + "ADD "@ + juice_url()
        + " juicefs.tar.gz\n"@ + "RUN tar -xzf juicefs.tar.gz && rm juicefs.tar.gz && mkdir /data\n"@
        + "COPY container.yml /container.yml\n"@ + "ADD wd.tar.gz /opt\n"@ + "WORKDIR /opt/wd\n"@
        + "RUN chmod +x /opt/wd/"@ + doc.entrypoint@ + "\n"@ + run_lines(doc.install@)
        + "ENTRYPOINT [\"/branelet\"]\n"@
}

/// Whether the text begins with the prefix.
fn text_starts_with(s: &str, prefix: &str) -> (r: bool)
    ensures
        r == (s@.len() >= prefix@.len() && s@.subrange(0, prefix@.len() as int) == prefix@),
{
    let n = s.unicode_len();
    let m = prefix.unicode_len();
    if m > n {
        return false;
    }
    let mut i: usize = 0;
    while i < m
        invariant
            n == s@.len(),
            m == prefix@.len(),
            m <= n,
            i <= m,
            forall|j: int| 0 <= j < i ==> s@[j] == prefix@[j],
        decreases m - i,
    {
        if s.get_char(i) != prefix.get_char(i) {
            proof {
                assert(s@.subrange(0, m as int)[i as int] != prefix@[i as int]);
            }
            return false;
        }
        i = i + 1;
    }
    proof {
        assert(s@.subrange(0, m as int) =~= prefix@);
    }
    true
}

/// Appends an `ENV` line for each variable.
fn append_env_lines(contents: &mut String, env: &Vec<(String, String)>)
    ensures
        final(contents)@ == old(contents)@ + env_lines(env@),
{
    let mut i: usize = 0;
    while i < env.len()
        invariant
            i <= env@.len(),
            contents@ == old(contents)@ + env_lines(env@.subrange(0, i as int)),
        decreases env@.len() - i,
    {
        proof {
            let next = env@.subrange(0, i + 1);
            assert(next.drop_last() =~= env@.subrange(0, i as int));
            assert(next.last() == env@[i as int]);
        }
        contents.append("ENV ");
        contents.append(env[i].0.as_str());
        contents.append("=");
        contents.append(env[i].1.as_str());
        contents.append("\n");
        i = i + 1;
    }
    proof {
        assert(env@.subrange(0, env@.len() as int) =~= env@);
    }
}

/// Appends each dependency followed by a space.
fn append_dependencies(contents: &mut String, deps: &Vec<String>)
    ensures
        final(contents)@ == old(contents)@ + dependency_words(deps@),
{
    let mut i: usize = 0;
    while i < deps.len()
        invariant
            i <= deps@.len(),
            contents@ == old(contents)@ + dependency_words(deps@.subrange(0, i as int)),
        decreases deps@.len() - i,
    {
        proof {
            let next = deps@.subrange(0, i + 1);
            assert(next.drop_last() =~= deps@.subrange(0, i as int));
            assert(next.last() == deps@[i as int]);
        }
        contents.append(deps[i].as_str());
        contents.append(" ");
        i = i + 1;
    }
    proof {
        assert(deps@.subrange(0, deps@.len() as int) =~= deps@);
    }
}

/// Appends a `RUN` line for each installation command.
fn append_run_lines(contents: &mut String, lines: &Vec<String>)
    ensures
        final(contents)@ == old(contents)@ + run_lines(lines@),
{
    let mut i: usize = 0;
    while i < lines.len()
        invariant
            i <= lines@.len(),
            contents@ == old(contents)@ + run_lines(lines@.subrange(0, i as int)),
        decreases lines@.len() - i,
    {
        proof {
            let next = lines@.subrange(0, i + 1);
            assert(next.drop_last() =~= lines@.subrange(0, i as int));
            assert(next.last() == lines@[i as int]);
        }
        contents.append("RUN ");
        contents.append(lines[i].as_str());
        contents.append("\n");
        i = i + 1;
    }
    proof {
        assert(lines@.subrange(0, lines@.len() as int) =~= lines@);
    }
}

/// Writes the Dockerfile up to the installation of the base's packages.
fn write_head(doc: &ContainerSpec) -> (r: String)
    ensures
        r@ == ecu_head(*doc),
{
    let base: &str = match &doc.base {
        Some(b) => b.as_str(),
        None => "ubuntu:20.04",
    };
    let mut contents = String::from_str("# Generated by Brane\n");
    contents.append("FROM ");
    contents.append(base);
    contents.append("\n");
    append_env_lines(&mut contents, &doc.environment);
    if text_starts_with(base, "alpine") {
        contents.append("RUN apk add --no-cache ");
    } else {
        contents.append(
            "RUN apt-get update && DEBIAN_FRONTEND=noninteractive apt-get install -y --allow-change-held-packages --allow-downgrades ",
        );
    }
    contents.append("fuse iptables ");
    append_dependencies(&mut contents, &doc.dependencies);
    contents.append("\n");
    contents
}

/// Writes the Dockerfile of a code package, with the branelet copied in
/// or the released one fetched from `branelet_url`.
///
/// The entrypoint is refused where its cleaned path would step out of the
/// working directory.
pub fn generate_dockerfile(doc: &ContainerSpec, override_branelet: bool, branelet_url: &str) -> (r: Result<
    String,
    BuildError,
>)
    ensures
        match r {
            Ok(text) => !unsafe_path(path_cleaned(doc.entrypoint@)) && text@ == ecu_dockerfile(
                *doc,
                override_branelet,
                branelet_url@,
            ),
            Err(BuildError::UnsafePath { path }) => unsafe_path(path_cleaned(doc.entrypoint@)) && path@
                == path_cleaned(doc.entrypoint@),
        },
{
    let mut contents = write_head(doc);
    if override_branelet {
        contents.append("ADD branelet branelet\n");
    } else {
        contents.append("ADD ");
        contents.append(branelet_url);
        contents.append(" branelet\n");
    }
    contents.append("RUN chmod +x branelet\n");
    contents.append("ADD ");
    contents.append("https://github.com/juicedata/juicefs/releases/download/v0.12.1/juicefs-0.12.1-linux-amd64.tar.gz");
    contents.append(" juicefs.tar.gz\n");
    contents.append("RUN tar -xzf juicefs.tar.gz && rm juicefs.tar.gz && mkdir /data\n");
    contents.append("COPY container.yml /container.yml\n");
    contents.append("ADD wd.tar.gz /opt\n");
    contents.append("WORKDIR /opt/wd\n");
    match safe_relative_path(doc.entrypoint.as_str()) {
        Ok(_) => {},
        Err(e) => {
            return Err(e);
        },
    }
    contents.append("RUN chmod +x /opt/wd/");
    contents.append(doc.entrypoint.as_str());
    contents.append("\n");
    append_run_lines(&mut contents, &doc.install);
    contents.append("ENTRYPOINT [\"/branelet\"]\n");
    proof {
        assert(contents@ =~= ecu_dockerfile(*doc, override_branelet, branelet_url@));
    }
    Ok(contents)
}

} // verus!
