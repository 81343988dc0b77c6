//! The infrastructure file: the locations jobs can run at, with the
//! credentials to reach them, whose secrets a secrets file holds; and where
//! such files are stored.

use std::path::PathBuf;
use url::Url;
use vstd::prelude::*;

verus! {

#[verifier::external_type_specification]
#[verifier::external_body]
pub struct ExPathBuf(PathBuf);

#[verifier::external_type_specification]
#[verifier::external_body]
pub struct ExIoError(std::io::Error);

#[verifier::external_type_specification]
#[verifier::external_body]
pub struct ExYamlError(serde_yaml::Error);

#[verifier::external_type_specification]
#[verifier::external_body]
pub struct ExUrl(Url);

/// The errors of stores.
#[derive(Debug)]
pub enum StoreError {
    /// The path could not be made absolute.
    UncanonicalizeablePath { path: String, err: std::io::Error },
}

/// Where a file is stored: a local file, or a remote database.
#[derive(Debug)]
pub enum Store {
    File(PathBuf),
    Database(Url),
}

/// Whether the text parses as an absolute URL (`url::Url::parse`).
pub uninterp spec fn url_parses(s: Seq<char>) -> bool;

/// `url::Url::parse`: the URL the text holds, if it holds one. Whether it
/// does is a function of the text alone, named `url_parses`; the URL itself
/// is not described.
#[verifier::external_body]
fn parse_url(s: &str) -> (r: Option<Url>)
    ensures
        r is Some <==> url_parses(s@),
{
    Url::parse(s).ok()
}

impl Store {
    /// The store that a text names where it is a URL: a remote database.
    /// Any other text names a local file, whose path the caller makes
    /// absolute.
    pub fn from_url(store: &str) -> (r: Option<Store>)
        ensures
            r is Some <==> url_parses(store@),
            r matches Some(s) ==> s is Database,
    {
        match parse_url(store) {
            Some(url) => Some(Store::Database(url)),
            None => None,
        }
    }
}

/// The errors of the infrastructure file.
#[derive(Debug)]
pub enum InfrastructureError {
    /// The store could not be resolved.
    StoreError { err: StoreError },
    /// The local file could not be opened.
    LocalOpenError { path: PathBuf, err: std::io::Error },
    /// The local file could not be read.
    LocalIOError { path: PathBuf, err: std::io::Error },
    /// The file is empty.
    EmptyInfraFile { path: PathBuf },
    /// The file is no valid YAML document of locations.
    InvalidInfraFile { path: PathBuf, err: serde_yaml::Error },
    /// The location is not in the file.
    UnknownLocation { location: String },
    /// The file lies in a remote database, which is not supported.
    DatabaseNotImplemented,
}

/// How to log in at a location.
#[derive(Debug, Clone)]
pub enum LocationCredentials {
    Config { file: String },
    SshCertificate { username: String, certificate: String, passphrase: Option<String> },
    SshPassword { username: String, password: String },
}

/// A location jobs can run at.
#[derive(Debug, Clone)]
pub enum Location {
    Kube {
        address: String,
        callback_to: String,
        namespace: String,
        registry: String,
        credentials: LocationCredentials,
        proxy_address: Option<String>,
        mount_dfs: Option<String>,
    },
    Local {
        address: Option<String>,
        callback_to: String,
        network: String,
        registry: String,
        proxy_address: Option<String>,
        mount_dfs: Option<String>,
    },
    Vm {
        address: String,
        callback_to: String,
        runtime: String,
        registry: String,
        credentials: LocationCredentials,
        proxy_address: Option<String>,
        mount_dfs: Option<String>,
    },
    Slurm {
        address: String,
        callback_to: String,
        runtime: String,
        registry: String,
        credentials: LocationCredentials,
        proxy_address: Option<String>,
        mount_dfs: Option<String>,
    },
}

/// The address of a location: a local one without an address is the
/// local host.
pub open spec fn location_address(l: Location) -> Seq<char> {
    match l {
        Location::Kube { address, .. } | Location::Vm { address, .. } | Location::Slurm { address, .. } => address@,
        Location::Local { address, .. } => match address {
            Some(a) => a@,
            None => "127.0.0.1"@,
        },
    }
}

/// The registry of a location.
pub open spec fn location_registry(l: Location) -> Seq<char> {
    match l {
        Location::Kube { registry, .. } | Location::Vm { registry, .. } | Location::Slurm { registry, .. }
        | Location::Local { registry, .. } => registry@,
    }
}

impl Location {
    /// Returns the location's address.
    pub fn get_address(&self) -> (r: String)
        ensures
            r@ == location_address(*self),
    {
        match self {
            Location::Kube { address, .. } | Location::Vm { address, .. } | Location::Slurm { address, .. } => address.clone(),
            Location::Local { address, .. } => match address {
                Some(a) => a.clone(),
                None => String::from_str("127.0.0.1"),
            },
        }
    }

    /// Returns the location's registry.
    pub fn get_registry(&self) -> (r: String)
        ensures
            r@ == location_registry(*self),
    {
        match self {
            Location::Kube { registry, .. } | Location::Vm { registry, .. } | Location::Slurm { registry, .. }
            | Location::Local { registry, .. } => registry.clone(),
        }
    }
}

/// The secrets: names with their values, the first of a name counting.
pub type SecretsDocument = Vec<(String, String)>;

/// The value of the first secret of the name, if any.
pub open spec fn secret_of(secrets: Seq<(String, String)>, name: Seq<char>) -> Option<Seq<char>>
    decreases secrets.len(),
{
    if secrets.len() == 0 {
        None
    } else if secrets[0].0@ == name {
        Some(secrets[0].1@)
    } else {
        secret_of(secrets.drop_first(), name)
    }
}

/// A credential field after resolving secrets: a value `s$name` stands for
/// the secret of that name where there is one; any other value stands for
/// itself.
pub open spec fn resolved(value: Seq<char>, secrets: Seq<(String, String)>) -> Seq<char> {
    if value.len() >= 2 && value[0] == 's' && value[1] == '$' {
        match secret_of(secrets, value.subrange(2, value.len() as int)) {
            Some(v) => v,
            None => value,
        }
    } else {
        value
    }
}

/// Looks up the first secret of the name.
fn find_secret(secrets: &SecretsDocument, name: &str) -> (r: Option<String>)
    ensures
        match secret_of(secrets@, name@) {
            Some(v) => r matches Some(s) && s@ == v,
            None => r is None,
        },
{
    assert(secrets@.subrange(0, secrets@.len() as int) =~= secrets@);
    let mut i: usize = 0;
    while i < secrets.len()
        invariant
            i <= secrets@.len(),
            secret_of(secrets@, name@) == secret_of(secrets@.subrange(i as int, secrets@.len() as int), name@),
        decreases secrets@.len() - i,
    {
        let ghost rest = secrets@.subrange(i as int, secrets@.len() as int);
        assert(rest.drop_first() =~= secrets@.subrange(i + 1, secrets@.len() as int));
        if crate::globals::str_eq(secrets[i].0.as_str(), name) {
            return Some(secrets[i].1.clone());
        }
        i = i + 1;
    }
    None
}

/// Resolves one credential field.
fn resolve(value: &String, secrets: &SecretsDocument) -> (r: String)
    ensures
        r@ == resolved(value@, secrets@),
{
    let n = value.as_str().unicode_len();
    if n >= 2 && value.as_str().get_char(0) == 's' && value.as_str().get_char(1) == '$' {
        let name = value.as_str().substring_char(2, n);
        match find_secret(secrets, name) {
            Some(v) => v,
            None => value.clone(),
        }
    } else {
        value.clone()
    }
}

/// The credentials after resolving secrets in each field.
pub open spec fn credentials_resolved(c: LocationCredentials, secrets: Seq<(String, String)>, r: LocationCredentials) -> bool {
    match (c, r) {
        (LocationCredentials::Config { file }, LocationCredentials::Config { file: f2 }) => f2@ == resolved(file@, secrets),
        (
            LocationCredentials::SshCertificate { username, certificate, passphrase },
            LocationCredentials::SshCertificate { username: u2, certificate: c2, passphrase: p2 },
        ) => u2@ == resolved(username@, secrets) && c2@ == resolved(certificate@, secrets) && match (passphrase, p2) {
            (Some(p), Some(q)) => q@ == resolved(p@, secrets),
            (None, None) => true,
            _ => false,
        },
        (
            LocationCredentials::SshPassword { username, password },
            LocationCredentials::SshPassword { username: u2, password: p2 },
        ) => u2@ == resolved(username@, secrets) && p2@ == resolved(password@, secrets),
        _ => false,
    }
}

impl LocationCredentials {
    /// The credentials with each field that names a secret (`s$name`)
    /// replaced by the secret, where the secrets hold it.
    pub fn resolve_secrets(&self, secrets: &SecretsDocument) -> (r: LocationCredentials)
        ensures
            credentials_resolved(*self, secrets@, r),
    {
        match self {
            LocationCredentials::Config { file } => LocationCredentials::Config { file: resolve(file, secrets) },
            LocationCredentials::SshCertificate { username, certificate, passphrase } => {
                let passphrase = match passphrase {
                    Some(p) => Some(resolve(p, secrets)),
                    None => None,
                };
                LocationCredentials::SshCertificate {
                    username: resolve(username, secrets),
                    certificate: resolve(certificate, secrets),
                    passphrase,
                }
            },
            LocationCredentials::SshPassword { username, password } => LocationCredentials::SshPassword {
                username: resolve(username, secrets),
                password: resolve(password, secrets),
            },
        }
    }

    /// The name of the kind of credentials.
    pub open spec fn cred_type_name(&self) -> Seq<char> {
        match *self {
            LocationCredentials::Config { .. } => "Config"@,
            LocationCredentials::SshCertificate { .. } => "SshCertificate"@,
            LocationCredentials::SshPassword { .. } => "SshPassword"@,
        }
    }

    /// Returns the name of the kind of credentials.
    pub fn cred_type(&self) -> (r: &'static str)
        ensures
            r@ == self.cred_type_name(),
    {
        proof {
            reveal_strlit("Config");
            reveal_strlit("SshCertificate");
            reveal_strlit("SshPassword");
        }
        match self {
            LocationCredentials::Config { .. } => "Config",
            LocationCredentials::SshCertificate { .. } => "SshCertificate",
            LocationCredentials::SshPassword { .. } => "SshPassword",
        }
    }
}

/// The infrastructure file's contents: the locations by name.
#[derive(Debug, Clone)]
pub struct InfrastructureDocument {
    pub locations: Vec<(String, Location)>,
}

impl InfrastructureDocument {
    /// Returns the names of the locations.
    pub fn get_locations(&self) -> (r: Vec<String>)
        ensures
            r@.len() == self.locations@.len(),
            forall|i: int| 0 <= i < r@.len() ==> (#[trigger] r@[i])@ == self.locations@[i].0@,
    {
        let mut out: Vec<String> = Vec::new();
        let mut i: usize = 0;
        while i < self.locations.len()
            invariant
                i <= self.locations@.len(),
                out@.len() == i,
                forall|k: int| 0 <= k < i ==> (#[trigger] out@[k])@ == self.locations@[k].0@,
            decreases self.locations@.len() - i,
        {
            out.push(self.locations[i].0.clone());
            i = i + 1;
        }
        out
    }

    /// Returns the first location of the name, or `UnknownLocation`.
    pub fn get_location_metadata(&self, location: String) -> (r: Result<&Location, InfrastructureError>)
        ensures
            match r {
                Ok(l) => exists|i: int|
                    0 <= i < self.locations@.len() && self.locations@[i].0@ == location@ && self.locations@[i].1 == *l
                        && forall|j: int| 0 <= j < i ==> self.locations@[j].0@ != location@,
                Err(e) => e matches InfrastructureError::UnknownLocation { location: l } && l@ == location@
                    && forall|i: int| 0 <= i < self.locations@.len() ==> self.locations@[i].0@ != location@,
            },
    {
        let mut i: usize = 0;
        while i < self.locations.len()
            invariant
                i <= self.locations@.len(),
                forall|j: int| 0 <= j < i ==> self.locations@[j].0@ != location@,
            decreases self.locations@.len() - i,
        {
            if self.locations[i].0 == location {
                return Ok(&self.locations[i].1);
            }
            i = i + 1;
        }
        Err(InfrastructureError::UnknownLocation { location })
    }
}

} // verus!
