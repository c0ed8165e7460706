//! Why a request is turned down.
use vstd::prelude::*;
use vstd::string::*;

verus! {

/// A request that was turned down, with the message for the user.
#[derive(Debug, Clone)]
pub struct Refusal {
    pub message: String,
}

impl View for Refusal {
    type V = Seq<char>;

    open spec fn view(&self) -> Seq<char> {
        self.message@
    }
}

/// What a fallible step comes to, with the message where it fails.
pub open spec fn outcome<T>(r: Result<T, Refusal>) -> Result<T, Seq<char>> {
    match r {
        Ok(v) => Ok(v),
        Err(e) => Err(e@),
    }
}

/// A refusal with the given message.
pub fn refuse<T>(message: &str) -> (r: Result<T, Refusal>)
    ensures
        r matches Err(e) && e@ == message@,
{
    Err(Refusal { message: message.to_owned() })
}

/// A refusal with the given message, made of three parts.
pub fn refuse_about<T>(before: &str, about: &str, behind: &str) -> (r: Result<T, Refusal>)
    ensures
        r matches Err(e) && e@ == before@ + about@ + behind@,
{
    let message = before.to_owned().concat(about).concat(behind);
    Err(Refusal { message })
}

/// What can go wrong in the package manager.
#[derive(Debug, Clone)]
pub enum ComposerError {
    /// The manifest is not valid JSON.
    JsonParse(String),
    /// The manifest does not say what it must.
    InvalidManifest { message: String },
    PackageNotFound { name: String },
    VersionNotFound { name: String, version: String },
    Repository(String),
    Network(String),
    Io(String),
    /// There is no set of versions that fits.
    DependencyResolution(String),
    DownloadFailed { package: String, reason: String },
    ChecksumMismatch { package: String },
    InstallationFailed(String),
    Config(String),
    InvalidConstraint(String),
    LockFileOutOfSync,
    Git(String),
}

impl View for ComposerError {
    type V = Seq<char>;

    /// The message for the user.
    open spec fn view(&self) -> Seq<char> {
        match *self {
            ComposerError::JsonParse(e) => "Failed to parse composer.json: "@ + e@,
            ComposerError::InvalidManifest { message } => "Invalid composer.json: "@ + message@,
            ComposerError::PackageNotFound { name } => "Package not found: "@ + name@,
            ComposerError::VersionNotFound { name, version } => "Version not found: "@ + name@
                + "@"@ + version@,
            ComposerError::Repository(e) => "Repository error: "@ + e@,
            ComposerError::Network(e) => "Network error: "@ + e@,
            ComposerError::Io(e) => "IO error: "@ + e@,
            ComposerError::DependencyResolution(e) => "Could not resolve dependencies: "@ + e@,
            ComposerError::DownloadFailed { package, reason } => "Download failed for "@ + package@
                + ": "@ + reason@,
            ComposerError::ChecksumMismatch { package } => "Checksum mismatch for "@ + package@,
            ComposerError::InstallationFailed(e) => "Installation failed: "@ + e@,
            ComposerError::Config(e) => "Configuration error: "@ + e@,
            ComposerError::InvalidConstraint(e) => "Invalid version constraint: "@ + e@,
            ComposerError::LockFileOutOfSync => "Lock file is out of sync with composer.json"@,
            ComposerError::Git(e) => "Git error: "@ + e@,
        }
    }
}

impl ComposerError {
    /// The message for the user.
    pub fn message(&self) -> (r: String)
        ensures
            r@ == self@,
    {
        match self {
            ComposerError::JsonParse(e) => two("Failed to parse composer.json: ", e),
            ComposerError::InvalidManifest { message } => two("Invalid composer.json: ", message),
            ComposerError::PackageNotFound { name } => two("Package not found: ", name),
            ComposerError::VersionNotFound { name, version } => two(
                "Version not found: ",
                name,
            ).concat("@").concat(version.as_str()),
            ComposerError::Repository(e) => two("Repository error: ", e),
            ComposerError::Network(e) => two("Network error: ", e),
            ComposerError::Io(e) => two("IO error: ", e),
            ComposerError::DependencyResolution(e) => two("Could not resolve dependencies: ", e),
            ComposerError::DownloadFailed { package, reason } => two(
                "Download failed for ",
                package,
            ).concat(": ").concat(reason.as_str()),
            ComposerError::ChecksumMismatch { package } => two("Checksum mismatch for ", package),
            ComposerError::InstallationFailed(e) => two("Installation failed: ", e),
            ComposerError::Config(e) => two("Configuration error: ", e),
            ComposerError::InvalidConstraint(e) => two("Invalid version constraint: ", e),
            ComposerError::LockFileOutOfSync => {
                "Lock file is out of sync with composer.json".to_owned()
            },
            ComposerError::Git(e) => two("Git error: ", e),
        }
    }
}

fn two(a: &str, b: &String) -> (r: String)
    ensures
        r@ == a@ + b@,
{
    a.to_owned().concat(b.as_str())
}

} // verus!
