//! Hardware erase of whole drives: ATA security erase for hard disks and
//! SATA SSDs, Format NVM or Sanitize for NVMe. What the identify data must
//! show, and the commands that are run.
use vstd::prelude::*;

use crate::text::{chars_of, contains, has_str, push_str, string_from_chars};

verus! {

broadcast use vstd::string::group_string_axioms;

/// Hard disk erase.
pub struct HDDWipe;

/// SATA SSD erase.
pub struct SSDWipe;

/// NVMe erase.
pub struct NVMeWipe;

/// The temporary ATA security password set for the erase.
pub open spec fn erase_password() -> Seq<char> {
    "temp123"@
}

/// The texts of a list of arguments.
pub open spec fn arg_texts(v: Seq<String>) -> Seq<Seq<char>> {
    v.map_values(|a: String| a@)
}

/// `hdparm` arguments that set the user password for the erase.
pub open spec fn set_pass_args(device_path: Seq<char>) -> Seq<Seq<char>> {
    seq!["--user-master"@, "u"@, "--security-set-pass"@, erase_password(), device_path]
}

/// `hdparm` arguments of the security erase.
pub open spec fn security_erase_args(device_path: Seq<char>) -> Seq<Seq<char>> {
    seq!["--user-master"@, "u"@, "--security-erase"@, erase_password(), device_path]
}

fn string_of(s: &str) -> (r: String)
    ensures
        r@ == s@,
{
    s.to_string()
}

fn hdparm_args(action: &str, device_path: &str) -> (v: Vec<String>)
    ensures
        arg_texts(v@) == seq!["--user-master"@, "u"@, action@, erase_password(), device_path@],
{
    let mut v: Vec<String> = Vec::new();
    v.push(string_of("--user-master"));
    v.push(string_of("u"));
    v.push(string_of(action));
    v.push(string_of("temp123"));
    v.push(string_of(device_path));
    proof {
        reveal_strlit("temp123");
    }
    assert(arg_texts(v@) =~= seq!["--user-master"@, "u"@, action@, erase_password(), device_path@]);
    v
}

/// Whether `hdparm -I` shows enhanced security erase support.
pub open spec fn enhanced_erase_supported(identify: Seq<char>) -> bool {
    contains(identify, "supported: enhanced erase"@)
}

impl HDDWipe {
    /// Whether the disk supports enhanced security erase, from `hdparm -I`;
    /// where it does not, the erase is skipped.
    pub fn supports_secure_erase(hdparm_identify: &str) -> (b: bool)
        ensures
            b == enhanced_erase_supported(hdparm_identify@),
    {
        let c = chars_of(hdparm_identify);
        has_str(&c, "supported: enhanced erase")
    }

    /// The two `hdparm` runs of the erase: set the password, then erase.
    pub fn erase_commands(device_path: &str) -> (r: (Vec<String>, Vec<String>))
        ensures
            arg_texts(r.0@) == set_pass_args(device_path@),
            arg_texts(r.1@) == security_erase_args(device_path@),
    {
        (hdparm_args("--security-set-pass", device_path), hdparm_args("--security-erase", device_path))
    }
}

impl SSDWipe {
    /// Whether the SSD supports enhanced security erase, from `hdparm -I`;
    /// where it does not, the erase fails with that reason.
    pub fn is_secure_erase_supported(hdparm_identify: &str) -> (r: Result<(), String>)
        ensures
            enhanced_erase_supported(hdparm_identify@) <==> r is Ok,
            r matches Err(m) ==> m@ == "Secure erase not supported on this device"@,
    {
        let c = chars_of(hdparm_identify);
        if has_str(&c, "supported: enhanced erase") {
            Ok(())
        } else {
            Err(string_of("Secure erase not supported on this device"))
        }
    }

    /// The `hdparm` arguments that set `password` as the user password.
    pub fn set_security_password_args(device_path: &str, password: &str) -> (v: Vec<String>)
        ensures
            arg_texts(v@) == seq!["--user-master"@, "u"@, "--security-set-pass"@, password@, device_path@],
    {
        let mut v: Vec<String> = Vec::new();
        v.push(string_of("--user-master"));
        v.push(string_of("u"));
        v.push(string_of("--security-set-pass"));
        v.push(string_of(password));
        v.push(string_of(device_path));
        assert(arg_texts(v@) =~= seq![
            "--user-master"@,
            "u"@,
            "--security-set-pass"@,
            password@,
            device_path@,
        ]);
        v
    }

    /// The error of a password that could not be set, with `hdparm`'s
    /// message.
    pub fn password_error(stderr: &str) -> (m: String)
        ensures
            m@ == "Failed to set security password: "@ + stderr@,
    {
        let mut c: Vec<char> = Vec::new();
        push_str(&mut c, "Failed to set security password: ");
        push_str(&mut c, stderr);
        string_from_chars(&c)
    }

    /// The `hdparm` arguments of the erase with the temporary password.
    pub fn erase_args(device_path: &str) -> (v: Vec<String>)
        ensures
            arg_texts(v@) == security_erase_args(device_path@),
    {
        hdparm_args("--security-erase", device_path)
    }
}

/// The NVMe erase that the controller's identify data allows: Format NVM
/// with secure erase where supported, else a crypto-erase sanitize.
pub open spec fn nvme_erase_args(id_ctrl: Seq<char>, device_path: Seq<char>) -> Option<
    (Seq<Seq<char>>, Seq<char>),
> {
    if contains(id_ctrl, "Format NVM Supported"@) {
        Some(
            (
                seq!["format"@, device_path, "--ses=1"@, "--force"@],
                "Format NVM secure erase"@,
            ),
        )
    } else if contains(id_ctrl, "Sanitize Operation Supported"@) {
        Some(
            (
                seq!["sanitize"@, device_path, "--crypto-erase"@, "--force"@],
                "Sanitize crypto erase"@,
            ),
        )
    } else {
        None
    }
}

impl NVMeWipe {
    /// Whether `nvme id-ctrl` reports Format NVM support.
    pub fn supports_format_nvm(id_ctrl: &str) -> (b: bool)
        ensures
            b == contains(id_ctrl@, "Format NVM Supported"@),
    {
        let c = chars_of(id_ctrl);
        has_str(&c, "Format NVM Supported")
    }

    /// Whether `nvme id-ctrl` reports sanitize support.
    pub fn supports_sanitize(id_ctrl: &str) -> (b: bool)
        ensures
            b == contains(id_ctrl@, "Sanitize Operation Supported"@),
    {
        let c = chars_of(id_ctrl);
        has_str(&c, "Sanitize Operation Supported")
    }

    /// The `nvme` arguments of the erase and its label (`nvme_erase_args`);
    /// the error where the controller offers neither.
    pub fn erase_command(id_ctrl: &str, device_path: &str) -> (r: Result<(Vec<String>, String), String>)
        ensures
            match nvme_erase_args(id_ctrl@, device_path@) {
                Some(e) => r matches Ok(p) && arg_texts(p.0@) == e.0 && p.1@ == e.1,
                None => r matches Err(m) && m@
                    == "No secure erase method available for this NVMe device"@,
            },
    {
        let mut v: Vec<String> = Vec::new();
        if Self::supports_format_nvm(id_ctrl) {
            v.push(string_of("format"));
            v.push(string_of(device_path));
            v.push(string_of("--ses=1"));
            v.push(string_of("--force"));
            assert(arg_texts(v@) =~= seq!["format"@, device_path@, "--ses=1"@, "--force"@]);
            Ok((v, string_of("Format NVM secure erase")))
        } else if Self::supports_sanitize(id_ctrl) {
            v.push(string_of("sanitize"));
            v.push(string_of(device_path));
            v.push(string_of("--crypto-erase"));
            v.push(string_of("--force"));
            assert(arg_texts(v@) =~= seq!["sanitize"@, device_path@, "--crypto-erase"@, "--force"@]);
            Ok((v, string_of("Sanitize crypto erase")))
        } else {
            Err(string_of("No secure erase method available for this NVMe device"))
        }
    }

    /// The error of an erase command that failed: its label and `failed`.
    pub fn failure_message(label: &str) -> (m: String)
        ensures
            m@ == label@ + " failed"@,
    {
        let mut c: Vec<char> = Vec::new();
        push_str(&mut c, label);
        push_str(&mut c, " failed");
        string_from_chars(&c)
    }
}

} // verus!
