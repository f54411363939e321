//! Finding the metadata tool.
use vstd::prelude::*;
use vstd::string::*;

verus! {

/// The operating system the program runs on.
#[derive(Clone, Copy, Debug, PartialEq, Eq, Structural)]
pub enum HostOs {
    Windows,
    Linux,
    MacOs,
    Other,
}

/// Relies on `which::which`: the path of an executable of that name on the
/// search path, when one is found (and its path is valid UTF-8). What is
/// found depends on the machine, so nothing is promised of it.
#[verifier::external_body]
fn find_executable(name: &str) -> (r: Option<String>)
    requires
        name@ == "exiftool"@,
{
    match which::which(name) {
        Ok(p) => p.into_os_string().into_string().ok(),
        Err(_) => None,
    }
}

pub open spec fn install_instructions_of(os: HostOs) -> Seq<char> {
    match os {
        HostOs::Windows => "winget install ExifTool"@,
        HostOs::Linux => "sudo apt install libimage-exiftool-perl"@,
        HostOs::MacOs => "brew install exiftool"@,
        HostOs::Other => "https://exiftool.org/"@,
    }
}

/// How to install the tool on `os`.
pub fn get_install_instructions(os: HostOs) -> (r: &'static str)
    ensures
        r@ == install_instructions_of(os),
{
    match os {
        HostOs::Windows => "winget install ExifTool",
        HostOs::Linux => "sudo apt install libimage-exiftool-perl",
        HostOs::MacOs => "brew install exiftool",
        HostOs::Other => "https://exiftool.org/",
    }
}

pub open spec fn not_found_message(os: HostOs) -> Seq<char> {
    "exiftool not found. Install it with:\n"@ + install_instructions_of(os)
}

/// The message for a missing tool, with the way to install it on `os`.
pub fn tool_not_found_message(os: HostOs) -> (r: String)
    ensures
        r@ == not_found_message(os),
{
    let mut m = String::from_str("exiftool not found. Install it with:\n");
    m.append(get_install_instructions(os));
    m
}

/// The outcome of looking the tool up: the path that was found, or the
/// message that says how to install it on `os`.
pub fn exiftool_path_from(found: Option<String>, os: HostOs) -> (r: Result<String, String>)
    ensures
        match found {
            Some(p) => r == Ok::<String, String>(p),
            None => r matches Err(m) && m@ == not_found_message(os),
        },
{
    match found {
        Some(p) => Ok(p),
        None => Err(tool_not_found_message(os)),
    }
}

/// The path of `exiftool` on the search path, or the message that says how
/// to install it.
pub fn get_exiftool_path(os: HostOs) -> (r: Result<String, String>)
    ensures
        r matches Err(m) ==> m@ == not_found_message(os),
{
    let found = find_executable("exiftool");
    exiftool_path_from(found, os)
}

} // verus!
