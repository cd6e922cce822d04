//! `install`: finds the release to install, checks it, and builds its
//! download link.

use vstd::prelude::*;

use crate::node_version::NodeVersion;
use crate::text::{
    ascii_lowercase, is_ascii_text, lowercase, occurs_in, str_contains, to_lowercase,
};

verus! {

/// The OS part of the file names: this tool is only designed for Windows.
pub const OS: &'static str = "win";

/// The extension of the downloaded archives.
pub const EXT: &'static str = ".zip";

/// Install the specified version
#[derive(Debug)]
pub struct InstallArgs {
    /// The node version to install, such as: "latest", "lts", "22", "16.20.2"
    pub version: String,
    /// Select the node architecture to install, the default matches the
    /// current system
    pub arch: InstallArch,
    /// Set the node download mirror
    pub node_mirror: String,
}

/// The node architecture to install.
#[derive(Debug, Clone, Copy, PartialEq, Eq, Structural)]
pub enum InstallArch {
    Default,
    X86,
    X64,
    Arm64,
}

/// The name of the downloaded file: `node-v{version}-{os}-{arch}{ext}`.
pub open spec fn download_file_name(
    version: Seq<char>,
    os: Seq<char>,
    arch: Seq<char>,
    ext: Seq<char>,
) -> Seq<char> {
    "node-v"@ + version + "-"@ + os + "-"@ + arch + ext
}

/// The download link: `{mirror}/v{version}/{file name}`.
pub open spec fn download_url(mirror: Seq<char>, version: Seq<char>, file_name: Seq<char>) -> Seq<
    char,
> {
    mirror + "/v"@ + version + "/"@ + file_name
}

/// Build download link: the URL and the file name.
pub fn build_download_url(mirror: &str, version: &str, os: &str, arch: &str, ext: &str) -> (r: (
    String,
    String,
))
    ensures
        r.1@ == download_file_name(version@, os@, arch@, ext@),
        r.0@ == download_url(mirror@, version@, r.1@),
{
    let filename = String::from_str("node-v").concat(version).concat("-").concat(os).concat(
        "-",
    ).concat(arch).concat(ext);
    let url = String::from_str(mirror).concat("/v").concat(version).concat("/").concat(
        filename.as_str(),
    );
    (url, filename)
}

/// The architecture that a lowercase architecture name stands for: 64-bit
/// ARM, 64-bit x86, or else 32-bit x86.
pub open spec fn arch_for_name(lower: Seq<char>) -> Seq<char> {
    if occurs_in(lower, "64"@) {
        if occurs_in(lower, "arm"@) || occurs_in(lower, "aarch"@) {
            "arm64"@
        } else {
            "x64"@
        }
    } else {
        "x86"@
    }
}

/// The architecture string for an installation: the chosen one, or by
/// default the one that the system architecture `os_arch` names.
pub open spec fn arch_text(arch: InstallArch, os_arch: Seq<char>) -> Seq<char> {
    match arch {
        InstallArch::X64 => "x64"@,
        InstallArch::X86 => "x86"@,
        InstallArch::Arm64 => "arm64"@,
        InstallArch::Default => arch_for_name(lowercase(os_arch)),
    }
}

/// The architecture string for a lowercase system architecture name.
pub fn arch_from_name(lower: &str) -> (r: &'static str)
    ensures
        r@ == arch_for_name(lower@),
{
    if str_contains(lower, "64") {
        if str_contains(lower, "arm") || str_contains(lower, "aarch") {
            "arm64"
        } else {
            "x64"
        }
    } else {
        "x86"
    }
}

/// Gets the string representation of the architecture; `Default` gives the
/// one that the system architecture `os_arch` names.
pub fn get_arch(arch: InstallArch, os_arch: &str) -> (r: &'static str)
    ensures
        r@ == arch_text(arch, os_arch@),
        arch is Default && is_ascii_text(os_arch@) ==> r@ == arch_for_name(ascii_lowercase(os_arch@)),
{
    match arch {
        InstallArch::X64 => "x64",
        InstallArch::X86 => "x86",
        InstallArch::Arm64 => "arm64",
        InstallArch::Default => {
            let lower = to_lowercase(os_arch);
            arch_from_name(lower.as_str())
        },
    }
}

/// The version field of a release starts with a one-byte character (the
/// `v`), which the version number follows.
pub open spec fn has_version_prefix(nv: NodeVersion) -> bool {
    nv.version@.len() > 0 && (nv.version@[0] as u32) < 128
}

/// The version number of a release: its version field without the leading
/// `v`.
pub fn release_number(nv: &NodeVersion) -> (number: String)
    requires
        has_version_prefix(*nv),
    ensures
        number@ == nv.version@.drop_first(),
{
    let v = nv.version.as_str();
    let n = v.unicode_len();
    String::from_str(v.substring_char(1, n))
}

/// The installation file that a release must list for an architecture:
/// `win-{arch}-zip`.
pub open spec fn installer_name(arch: Seq<char>) -> Seq<char> {
    OS@ + "-"@ + arch + "-"@ + EXT@.drop_first()
}

/// The next step of an installation.
#[derive(Debug)]
pub enum InstallStep {
    /// This version is already installed.
    AlreadyInstalled,
    /// The release lists no installation file for the architecture.
    MissingFile,
    /// Download the file from `url`; it is saved as `file_name`.
    Download { url: String, file_name: String },
}

/// The version number, the architecture and the next step of an
/// installation.
#[derive(Debug)]
pub struct InstallPlan {
    pub version: String,
    pub arch: String,
    pub step: InstallStep,
}

/// Some entry of `names` is `name`.
pub open spec fn lists(names: Seq<String>, name: Seq<char>) -> bool {
    exists|j: int| 0 <= j < names.len() && #[trigger] names[j]@ == name
}

/// A name is listed exactly when some entry, at any position, is that name.
pub proof fn lemma_lists_any_entry(names: Seq<String>, name: Seq<char>)
    ensures
        forall|j: int| 0 <= j < names.len() && names[j]@ == name ==> lists(names, name),
        lists(names, name) ==> exists|j: int| 0 <= j < names.len() && names[j]@ == name,
{
}

/// Whether some entry of `names` is `name`.
pub fn contains_name(names: &Vec<String>, name: &String) -> (r: bool)
    ensures
        r == lists(names@, name@),
{
    let n = names.len();
    let mut i: usize = 0;
    while i < n
        invariant
            n == names.len(),
            0 <= i <= n,
            forall|j: int| 0 <= j < i ==> names@[j]@ != name@,
        decreases n - i,
    {
        if names[i] == *name {
            return true;
        }
        i = i + 1;
    }
    false
}

/// Plans the installation of a release: nothing when its version is
/// installed already (it returns success directly); an error when it lists
/// no installation file for the architecture; else the download of
/// `node-v{version}-win-{arch}.zip` from the mirror.
pub fn plan_install(
    nv: &NodeVersion,
    installed: &Vec<String>,
    arch: InstallArch,
    os_arch: &str,
    mirror: &str,
) -> (plan: InstallPlan)
    requires
        has_version_prefix(*nv),
    ensures
        plan.version@ == nv.version@.drop_first(),
        plan.arch@ == arch_text(arch, os_arch@),
        lists(installed@, plan.version@) ==> plan.step is AlreadyInstalled,
        !lists(installed@, plan.version@) && !lists(nv.files@, installer_name(plan.arch@))
            ==> plan.step is MissingFile,
        !lists(installed@, plan.version@) && lists(nv.files@, installer_name(plan.arch@)) ==> {
            &&& plan.step matches InstallStep::Download { url, file_name }
            &&& file_name@ == download_file_name(plan.version@, OS@, plan.arch@, EXT@)
            &&& url@ == download_url(mirror@, plan.version@, file_name@)
        },
{
    let version = release_number(nv);
    let arch_name = get_arch(arch, os_arch);
    let arch_string = String::from_str(arch_name);
    if contains_name(installed, &version) {
        return InstallPlan { version, arch: arch_string, step: InstallStep::AlreadyInstalled };
    }
    proof {
        reveal_strlit(".zip");
    }
    let ext_len = EXT.unicode_len();
    let ext_name = EXT.substring_char(1, ext_len);
    let installer = String::from_str(OS).concat("-").concat(arch_name).concat("-").concat(ext_name);
    if !contains_name(&nv.files, &installer) {
        return InstallPlan { version, arch: arch_string, step: InstallStep::MissingFile };
    }
    let (url, file_name) = build_download_url(mirror, version.as_str(), OS, arch_name, EXT);
    InstallPlan { version, arch: arch_string, step: InstallStep::Download { url, file_name } }
}

} // verus!
