//! Self-encrypting drives: what the OPAL, TCG Enterprise, ATA Security and
//! vendor tools report, and which kind of drive that makes.
use vstd::prelude::*;

use crate::text::{
    chars_of, contains, has_str, lines, second_piece, second_piece_exec, split_lines,
    string_from_chars, trim, trim_exec, views,
};
use crate::{DriveError, DriveResult, SEDType};

verus! {

broadcast use vstd::string::group_string_axioms;

/// What a self-encrypting drive offers.
#[derive(Debug, Clone)]
pub struct SEDInfo {
    pub sed_type: SEDType,
    pub locked: bool,
    pub enabled: bool,
    pub frozen: bool,
    pub max_password_tries: Option<u32>,
    pub supports_crypto_erase: bool,
    pub supports_instant_secure_erase: bool,
    pub firmware_version: Option<String>,
}

/// Self-encrypting drive operations.
pub struct SEDManager;

/// The OPAL state that `sedutil-cli --query` prints: the version, and
/// whether locking is on and the drive locked; each line counts for the
/// first of these it names.
pub open spec fn opal_scan(ls: Seq<Seq<char>>) -> (bool, bool, bool)
    decreases ls.len(),
{
    if ls.len() == 0 {
        (false, false, false)
    } else {
        let st = opal_scan(ls.drop_last());
        let l = ls.last();
        if contains(l, "OPAL 2"@) {
            (true, st.1, st.2)
        } else if contains(l, "Locked"@) && contains(l, "Y"@) {
            (st.0, true, st.2)
        } else if contains(l, "LockingEnabled"@) && contains(l, "Y"@) {
            (st.0, st.1, true)
        } else {
            st
        }
    }
}

/// The value of the first line of `ls` that holds one of two labels: the
/// trimmed text after its first `:`.
pub open spec fn labelled_value(ls: Seq<Seq<char>>, a: Seq<char>, b: Seq<char>) -> Option<Seq<char>>
    decreases ls.len(),
{
    if ls.len() == 0 {
        None
    } else if (contains(ls[0], a) || contains(ls[0], b)) && second_piece(ls[0], ':') is Some {
        Some(trim(second_piece(ls[0], ':')->0))
    } else {
        labelled_value(ls.drop_first(), a, b)
    }
}

/// The vendor of a drive model with its own encryption: Samsung EVO or PRO,
/// Crucial or Micron MX or BX, Intel SSD.
pub open spec fn proprietary_vendor(model: Seq<char>) -> Option<Seq<char>> {
    if contains(model, "Samsung"@) && (contains(model, "EVO"@) || contains(model, "PRO"@)) {
        Some("Samsung"@)
    } else if (contains(model, "Crucial"@) || contains(model, "Micron"@)) && (contains(model, "MX"@)
        || contains(model, "BX"@)) {
        Some("Crucial"@)
    } else if contains(model, "Intel"@) && contains(model, "SSD"@) {
        Some("Intel"@)
    } else {
        None
    }
}

fn labelled_value_exec(s: &str, a: &str, b: &str) -> (r: Option<String>)
    ensures
        match r {
            Some(v) => labelled_value(lines(s@), a@, b@) == Some(v@),
            None => labelled_value(lines(s@), a@, b@) is None,
        },
{
    let cs = chars_of(s);
    let ls = split_lines(&cs);
    let ghost all = views(ls@);
    let mut i: usize = 0;
    assert(all.skip(0) =~= all);
    while i < ls.len()
        invariant
            all == views(ls@),
            all == lines(s@),
            i <= all.len(),
            labelled_value(all, a@, b@) == labelled_value(all.skip(i as int), a@, b@),
        decreases all.len() - i,
    {
        assert(all.skip(i as int).drop_first() =~= all.skip(i + 1));
        assert(all.skip(i as int)[0] == ls@[i as int]@);
        if has_str(&ls[i], a) || has_str(&ls[i], b) {
            if let Some(p) = second_piece_exec(&ls[i], ':') {
                let t = trim_exec(&p);
                return Some(string_from_chars(&t));
            }
        }
        i += 1;
    }
    None
}

impl SEDManager {
    /// The drive model that `smartctl -i` gives.
    pub fn parse_drive_model(smartctl_info: &str) -> (r: Option<String>)
        ensures
            match r {
                Some(v) => labelled_value(lines(smartctl_info@), "Device Model:"@, "Model Number:"@)
                    == Some(v@),
                None => labelled_value(lines(smartctl_info@), "Device Model:"@, "Model Number:"@) is None,
            },
    {
        labelled_value_exec(smartctl_info, "Device Model:", "Model Number:")
    }

    /// The firmware version that `smartctl -i` gives.
    pub fn parse_firmware_version(smartctl_info: &str) -> (r: Option<String>)
        ensures
            match r {
                Some(v) => labelled_value(lines(smartctl_info@), "Firmware Version:"@, "Revision:"@)
                    == Some(v@),
                None => labelled_value(lines(smartctl_info@), "Firmware Version:"@, "Revision:"@) is None,
            },
    {
        labelled_value_exec(smartctl_info, "Firmware Version:", "Revision:")
    }

    /// An OPAL drive from `sedutil-cli --query` (`opal_scan`): OPAL 2 where it
    /// says so, else OPAL 1; crypto erase and instant erase; five tries.
    pub fn parse_opal_info(output: &str, firmware_version: Option<String>) -> (info: SEDInfo)
        ensures
            info.sed_type == (if opal_scan(lines(output@)).0 {
                SEDType::OPAL20
            } else {
                SEDType::OPAL10
            }),
            info.locked == opal_scan(lines(output@)).1,
            info.enabled == opal_scan(lines(output@)).2,
            !info.frozen,
            info.max_password_tries == Some(5u32),
            info.supports_crypto_erase && info.supports_instant_secure_erase,
            info.firmware_version == firmware_version,
    {
        let cs = chars_of(output);
        let ls = split_lines(&cs);
        let ghost all = views(ls@);
        let mut opal2 = false;
        let mut locked = false;
        let mut enabled = false;
        let mut i: usize = 0;
        assert(all.take(0) =~= Seq::<Seq<char>>::empty());
        while i < ls.len()
            invariant
                all == views(ls@),
                all == lines(output@),
                i <= all.len(),
                (opal2, locked, enabled) == opal_scan(all.take(i as int)),
            decreases all.len() - i,
        {
            assert(all.take(i + 1).drop_last() =~= all.take(i as int));
            assert(all.take(i + 1).last() == ls@[i as int]@);
            if has_str(&ls[i], "OPAL 2") {
                opal2 = true;
            } else if has_str(&ls[i], "Locked") && has_str(&ls[i], "Y") {
                locked = true;
            } else if has_str(&ls[i], "LockingEnabled") && has_str(&ls[i], "Y") {
                enabled = true;
            }
            i += 1;
        }
        assert(all.take(i as int) =~= all);
        SEDInfo {
            sed_type: if opal2 {
                SEDType::OPAL20
            } else {
                SEDType::OPAL10
            },
            locked,
            enabled,
            frozen: false,
            max_password_tries: Some(5),
            supports_crypto_erase: true,
            supports_instant_secure_erase: true,
            firmware_version,
        }
    }

    /// An OPAL 2 drive where `nvme id-ctrl` names OPAL or TCG.
    pub fn opal_from_id_ctrl(id_ctrl: &str, enabled: bool, firmware_version: Option<String>) -> (r: Option<SEDInfo>)
        ensures
            (contains(id_ctrl@, "OPAL"@) || contains(id_ctrl@, "TCG"@)) ==> (r matches Some(info)
                && info.sed_type == SEDType::OPAL20 && !info.locked && info.enabled == enabled
                && !info.frozen && info.max_password_tries == Some(5u32) && info.supports_crypto_erase
                && info.supports_instant_secure_erase && info.firmware_version == firmware_version),
            !(contains(id_ctrl@, "OPAL"@) || contains(id_ctrl@, "TCG"@)) ==> r is None,
    {
        let s = chars_of(id_ctrl);
        if has_str(&s, "OPAL") || has_str(&s, "TCG") {
            Some(
                SEDInfo {
                    sed_type: SEDType::OPAL20,
                    locked: false,
                    enabled,
                    frozen: false,
                    max_password_tries: Some(5),
                    supports_crypto_erase: true,
                    supports_instant_secure_erase: true,
                    firmware_version,
                },
            )
        } else {
            None
        }
    }

    /// A TCG Enterprise drive where `sg_opcodes` lists SECURITY PROTOCOL and
    /// `sg_readcap --16` reports protection.
    pub fn tcg_enterprise_from(sg_opcodes: &str, sg_readcap: &str, firmware_version: Option<String>) -> (r:
        Option<SEDInfo>)
        ensures
            (contains(sg_opcodes@, "SECURITY PROTOCOL"@) && contains(sg_readcap@, "Protection"@)) ==> (
            r matches Some(info) && info.sed_type == SEDType::TCGEnterprise && !info.locked
                && info.enabled && !info.frozen && info.max_password_tries == Some(3u32)
                && info.supports_crypto_erase && info.supports_instant_secure_erase
                && info.firmware_version == firmware_version),
            !(contains(sg_opcodes@, "SECURITY PROTOCOL"@) && contains(sg_readcap@, "Protection"@)) ==> r is None,
    {
        let o = chars_of(sg_opcodes);
        let c = chars_of(sg_readcap);
        if has_str(&o, "SECURITY PROTOCOL") && has_str(&c, "Protection") {
            Some(
                SEDInfo {
                    sed_type: SEDType::TCGEnterprise,
                    locked: false,
                    enabled: true,
                    frozen: false,
                    max_password_tries: Some(3),
                    supports_crypto_erase: true,
                    supports_instant_secure_erase: true,
                    firmware_version,
                },
            )
        } else {
            None
        }
    }

    /// The ATA Security feature set where `hdparm -I` has a security section
    /// that says it is supported: enabled, locked and frozen as it says.
    pub fn ata_security_from(hdparm_identify: &str, firmware_version: Option<String>) -> (r: Option<SEDInfo>)
        ensures
            (contains(hdparm_identify@, "Security:"@) && contains(hdparm_identify@, "supported"@)) ==> (
            r matches Some(info) && info.sed_type == SEDType::ATASecurity && info.enabled == contains(
                hdparm_identify@,
                "enabled"@,
            ) && info.locked == contains(hdparm_identify@, "locked"@) && info.frozen == (contains(
                hdparm_identify@,
                "frozen"@,
            ) && !contains(hdparm_identify@, "not frozen"@)) && info.max_password_tries == Some(5u32)
                && !info.supports_crypto_erase && info.supports_instant_secure_erase == info.enabled
                && info.firmware_version == firmware_version),
            !(contains(hdparm_identify@, "Security:"@) && contains(hdparm_identify@, "supported"@)) ==> r is None,
    {
        let s = chars_of(hdparm_identify);
        if has_str(&s, "Security:") && has_str(&s, "supported") {
            let enabled = has_str(&s, "enabled");
            Some(
                SEDInfo {
                    sed_type: SEDType::ATASecurity,
                    locked: has_str(&s, "locked"),
                    enabled,
                    frozen: has_str(&s, "frozen") && !has_str(&s, "not frozen"),
                    max_password_tries: Some(5),
                    supports_crypto_erase: false,
                    supports_instant_secure_erase: enabled,
                    firmware_version,
                },
            )
        } else {
            None
        }
    }

    /// A vendor's own encryption from the drive model (`proprietary_vendor`):
    /// Samsung (enabled as its SMART attributes say, ten tries), Crucial
    /// (five tries), Intel (three tries).
    pub fn detect_proprietary(model: &str, samsung_encrypted: bool, firmware_version: Option<String>) -> (r:
        Option<SEDInfo>)
        ensures
            match proprietary_vendor(model@) {
                None => r is None,
                Some(v) => r matches Some(info) && (info.sed_type matches SEDType::Proprietary(n) && n@ == v)
                    && !info.locked && info.enabled == (v == "Samsung"@ && samsung_encrypted)
                    && !info.frozen && info.max_password_tries == Some(
                    if v == "Samsung"@ {
                        10u32
                    } else if v == "Crucial"@ {
                        5u32
                    } else {
                        3u32
                    },
                ) && info.supports_crypto_erase && info.supports_instant_secure_erase
                    && info.firmware_version == firmware_version,
            },
    {
        let m = chars_of(model);
        proof {
            reveal_strlit("Samsung");
            reveal_strlit("Crucial");
            reveal_strlit("Intel");
            assert("Crucial"@[0] != "Samsung"@[0]);
            assert("Intel"@.len() != "Samsung"@.len());
            assert("Intel"@.len() != "Crucial"@.len());
        }
        if has_str(&m, "Samsung") && (has_str(&m, "EVO") || has_str(&m, "PRO")) {
            return Some(
                SEDInfo {
                    sed_type: SEDType::Proprietary("Samsung".to_string()),
                    locked: false,
                    enabled: samsung_encrypted,
                    frozen: false,
                    max_password_tries: Some(10),
                    supports_crypto_erase: true,
                    supports_instant_secure_erase: true,
                    firmware_version,
                },
            );
        }
        if (has_str(&m, "Crucial") || has_str(&m, "Micron")) && (has_str(&m, "MX") || has_str(&m, "BX")) {
            return Some(
                SEDInfo {
                    sed_type: SEDType::Proprietary("Crucial".to_string()),
                    locked: false,
                    enabled: false,
                    frozen: false,
                    max_password_tries: Some(5),
                    supports_crypto_erase: true,
                    supports_instant_secure_erase: true,
                    firmware_version,
                },
            );
        }
        if has_str(&m, "Intel") && has_str(&m, "SSD") {
            return Some(
                SEDInfo {
                    sed_type: SEDType::Proprietary("Intel".to_string()),
                    locked: false,
                    enabled: false,
                    frozen: false,
                    max_password_tries: Some(3),
                    supports_crypto_erase: true,
                    supports_instant_secure_erase: true,
                    firmware_version,
                },
            );
        }
        None
    }

    /// The drive's self-encryption: the first of the OPAL, TCG Enterprise,
    /// ATA Security and vendor findings that found one; else none.
    pub fn detect_sed(
        opal: Option<SEDInfo>,
        tcg: Option<SEDInfo>,
        ata: Option<SEDInfo>,
        proprietary: Option<SEDInfo>,
    ) -> (info: SEDInfo)
        ensures
            opal matches Some(i) ==> info == i,
            opal is None ==> (tcg matches Some(i) ==> info == i),
            (opal is None && tcg is None) ==> (ata matches Some(i) ==> info == i),
            (opal is None && tcg is None && ata is None) ==> (proprietary matches Some(i)
                ==> info == i),
            opal is None && tcg is None && ata is None && proprietary is None ==> info.sed_type
                == SEDType::NotSED && !info.locked && !info.enabled && !info.frozen
                && info.max_password_tries is None && !info.supports_crypto_erase
                && !info.supports_instant_secure_erase && info.firmware_version is None,
    {
        if let Some(i) = opal {
            return i;
        }
        if let Some(i) = tcg {
            return i;
        }
        if let Some(i) = ata {
            return i;
        }
        if let Some(i) = proprietary {
            return i;
        }
        SEDInfo {
            sed_type: SEDType::NotSED,
            locked: false,
            enabled: false,
            frozen: false,
            max_password_tries: None,
            supports_crypto_erase: false,
            supports_instant_secure_erase: false,
            firmware_version: None,
        }
    }

    /// Whether a drive that reads back samples (the first 4 KiB at 0, 1 MiB
    /// and 1 GiB, empty where unreadable) looks crypto-erased: not every
    /// readable sample all zeros, and not every one all 0xFF.
    pub fn erase_looks_effective(samples: &Vec<Vec<u8>>) -> (b: bool)
        ensures
            b == (!(forall|i: int, j: int|
                0 <= i < samples@.len() && 0 <= j < samples@[i]@.len() ==> #[trigger] samples@[i]@[j]
                    == 0u8) && !(forall|i: int, j: int|
                0 <= i < samples@.len() && 0 <= j < samples@[i]@.len() ==> #[trigger] samples@[i]@[j]
                    == 0xFFu8)),
    {
        let mut all_zero = true;
        let mut all_ff = true;
        let mut i: usize = 0;
        while i < samples.len()
            invariant
                i <= samples@.len(),
                all_zero == (forall|k: int, j: int|
                    0 <= k < i && 0 <= j < samples@[k]@.len() ==> #[trigger] samples@[k]@[j] == 0u8),
                all_ff == (forall|k: int, j: int|
                    0 <= k < i && 0 <= j < samples@[k]@.len() ==> #[trigger] samples@[k]@[j] == 0xFFu8),
            decreases samples@.len() - i,
        {
            let buf = &samples[i];
            let mut j: usize = 0;
            let mut z = true;
            let mut f = true;
            while j < buf.len()
                invariant
                    j <= buf@.len(),
                    z == (forall|q: int| 0 <= q < j ==> #[trigger] buf@[q] == 0u8),
                    f == (forall|q: int| 0 <= q < j ==> #[trigger] buf@[q] == 0xFFu8),
                decreases buf@.len() - j,
            {
                if buf[j] != 0 {
                    z = false;
                }
                if buf[j] != 0xFF {
                    f = false;
                }
                j += 1;
            }
            assert(buf@ == samples@[i as int]@);
            all_zero = all_zero && z;
            all_ff = all_ff && f;
            i += 1;
        }
        !all_zero && !all_ff
    }
}

/// The crypto-erase command a drive's kind calls for.
#[derive(Debug, Clone, Copy, PartialEq, Eq, Structural)]
pub enum CryptoEraseMethod {
    /// `sedutil-cli --revertTPer` (OPAL, and eDrive on top of it).
    OpalRevert,
    /// `sg_sanitize --crypto` (TCG Enterprise).
    TcgSanitize,
    /// ATA security erase with a temporary password.
    AtaSecureErase,
    /// Samsung's `magician --secure-erase`, then ATA security erase.
    SamsungMagician,
}

/// The temporary password of the ATA security erase of a crypto erase.
pub open spec fn crypto_erase_password() -> Seq<char> {
    "temporary_erase_pwd"@
}

/// The texts of a list of arguments.
pub open spec fn texts_of(v: Seq<String>) -> Seq<Seq<char>> {
    v.map_values(|a: String| a@)
}

fn owned(s: &str) -> (r: String)
    ensures
        r@ == s@,
{
    s.to_string()
}

impl SEDManager {
    /// The crypto erase for a drive: refused where the drive does not
    /// support one or is no SED; else by its kind (OPAL and eDrive revert,
    /// TCG Enterprise sanitize, ATA security erase, and for a vendor's own
    /// encryption Samsung's tool where the vendor is Samsung, else ATA).
    pub fn crypto_erase_method(sed_info: &SEDInfo) -> (r: DriveResult<CryptoEraseMethod>)
        ensures
            !sed_info.supports_crypto_erase ==> (r matches Err(DriveError::CryptoEraseFailed(m)) && m@
                == "Device does not support cryptographic erase"@),
            sed_info.supports_crypto_erase ==> r == match sed_info.sed_type {
                SEDType::OPAL20 | SEDType::OPAL10 | SEDType::EDrive => Ok::<
                    CryptoEraseMethod,
                    DriveError,
                >(CryptoEraseMethod::OpalRevert),
                SEDType::TCGEnterprise => Ok(CryptoEraseMethod::TcgSanitize),
                SEDType::ATASecurity => Ok(CryptoEraseMethod::AtaSecureErase),
                SEDType::Proprietary(v) => if v@ == "Samsung"@ {
                    Ok(CryptoEraseMethod::SamsungMagician)
                } else {
                    Ok(CryptoEraseMethod::AtaSecureErase)
                },
                SEDType::NotSED => r,
            },
            (sed_info.supports_crypto_erase && sed_info.sed_type == SEDType::NotSED) ==> (r matches Err(
                DriveError::CryptoEraseFailed(m),
            ) && m@ == "No SED capabilities detected"@),
    {
        if !sed_info.supports_crypto_erase {
            return Err(DriveError::CryptoEraseFailed(owned("Device does not support cryptographic erase")));
        }
        match &sed_info.sed_type {
            SEDType::OPAL20 | SEDType::OPAL10 | SEDType::EDrive => Ok(CryptoEraseMethod::OpalRevert),
            SEDType::TCGEnterprise => Ok(CryptoEraseMethod::TcgSanitize),
            SEDType::ATASecurity => Ok(CryptoEraseMethod::AtaSecureErase),
            SEDType::Proprietary(v) => {
                let c = chars_of(v.as_str());
                let samsung = chars_of("Samsung");
                if crate::text::chars_eq(&c, &samsung) {
                    Ok(CryptoEraseMethod::SamsungMagician)
                } else {
                    Ok(CryptoEraseMethod::AtaSecureErase)
                }
            },
            SEDType::NotSED => Err(DriveError::CryptoEraseFailed(owned("No SED capabilities detected"))),
        }
    }

    /// The error where a crypto erase by `method` failed.
    pub fn crypto_erase_failure(method: CryptoEraseMethod) -> (e: DriveError)
        ensures
            e matches DriveError::CryptoEraseFailed(m) && m@ == match method {
                CryptoEraseMethod::OpalRevert => "OPAL crypto erase requires valid credentials or PSID"@,
                CryptoEraseMethod::TcgSanitize => "TCG Enterprise crypto erase failed"@,
                _ => "ATA Secure Erase failed"@,
            },
    {
        match method {
            CryptoEraseMethod::OpalRevert => DriveError::CryptoEraseFailed(
                owned("OPAL crypto erase requires valid credentials or PSID"),
            ),
            CryptoEraseMethod::TcgSanitize => DriveError::CryptoEraseFailed(
                owned("TCG Enterprise crypto erase failed"),
            ),
            _ => DriveError::CryptoEraseFailed(owned("ATA Secure Erase failed")),
        }
    }

    /// The two `hdparm` runs of the ATA security erase of a crypto erase:
    /// set the temporary password, then erase with it.
    pub fn ata_secure_erase_args(device_path: &str) -> (r: (Vec<String>, Vec<String>))
        ensures
            texts_of(r.0@) == seq![
                "--user-master"@,
                "u"@,
                "--security-set-pass"@,
                crypto_erase_password(),
                device_path@,
            ],
            texts_of(r.1@) == seq![
                "--user-master"@,
                "u"@,
                "--security-erase"@,
                crypto_erase_password(),
                device_path@,
            ],
    {
        let mut a: Vec<String> = Vec::new();
        a.push(owned("--user-master"));
        a.push(owned("u"));
        a.push(owned("--security-set-pass"));
        a.push(owned("temporary_erase_pwd"));
        a.push(owned(device_path));
        let mut b: Vec<String> = Vec::new();
        b.push(owned("--user-master"));
        b.push(owned("u"));
        b.push(owned("--security-erase"));
        b.push(owned("temporary_erase_pwd"));
        b.push(owned(device_path));
        proof {
            reveal_strlit("temporary_erase_pwd");
        }
        assert(texts_of(a@) =~= seq![
            "--user-master"@,
            "u"@,
            "--security-set-pass"@,
            crypto_erase_password(),
            device_path@,
        ]);
        assert(texts_of(b@) =~= seq![
            "--user-master"@,
            "u"@,
            "--security-erase"@,
            crypto_erase_password(),
            device_path@,
        ]);
        (a, b)
    }

    /// How a drive is unlocked with `password`: nothing to do where it is
    /// not locked (`None`); for OPAL, `sedutil-cli --setLockingRange 0 RW`;
    /// for ATA security, `hdparm --security-unlock`; any other kind cannot
    /// be unlocked. The tool and its arguments.
    pub fn unlock_command(device_path: &str, password: &str, sed_info: &SEDInfo) -> (r: DriveResult<
        Option<(String, Vec<String>)>,
    >)
        ensures
            !sed_info.locked ==> r matches Ok(None),
            (sed_info.locked && (sed_info.sed_type == SEDType::OPAL20 || sed_info.sed_type
                == SEDType::OPAL10)) ==> (r matches Ok(Some(c)) && c.0@ == "sedutil-cli"@ && texts_of(
                c.1@,
            ) == seq!["--setLockingRange"@, "0"@, "RW"@, password@, device_path@]),
            (sed_info.locked && sed_info.sed_type == SEDType::ATASecurity) ==> (r matches Ok(Some(c))
                && c.0@ == "hdparm"@ && texts_of(c.1@) == seq![
                "--user-master"@,
                "u"@,
                "--security-unlock"@,
                password@,
                device_path@,
            ]),
            (sed_info.locked && sed_info.sed_type != SEDType::OPAL20 && sed_info.sed_type
                != SEDType::OPAL10 && sed_info.sed_type != SEDType::ATASecurity) ==> (r matches Err(
                DriveError::UnlockFailed(m),
            ) && m@ == "Unlock not supported for this SED type"@),
    {
        if !sed_info.locked {
            return Ok(None);
        }
        let mut a: Vec<String> = Vec::new();
        match &sed_info.sed_type {
            SEDType::OPAL20 | SEDType::OPAL10 => {
                a.push(owned("--setLockingRange"));
                a.push(owned("0"));
                a.push(owned("RW"));
                a.push(owned(password));
                a.push(owned(device_path));
                assert(texts_of(a@) =~= seq![
                    "--setLockingRange"@,
                    "0"@,
                    "RW"@,
                    password@,
                    device_path@,
                ]);
                Ok(Some((owned("sedutil-cli"), a)))
            },
            SEDType::ATASecurity => {
                a.push(owned("--user-master"));
                a.push(owned("u"));
                a.push(owned("--security-unlock"));
                a.push(owned(password));
                a.push(owned(device_path));
                assert(texts_of(a@) =~= seq![
                    "--user-master"@,
                    "u"@,
                    "--security-unlock"@,
                    password@,
                    device_path@,
                ]);
                Ok(Some((owned("hdparm"), a)))
            },
            _ => Err(DriveError::UnlockFailed(owned("Unlock not supported for this SED type"))),
        }
    }

    /// Whether `smartctl -A` of a Samsung drive shows its encryption on.
    pub fn check_samsung_encryption(smartctl_attributes: &str) -> (b: bool)
        ensures
            b == contains(smartctl_attributes@, "Encrypted"@),
    {
        let c = chars_of(smartctl_attributes);
        has_str(&c, "Encrypted")
    }
}

/// Law: what `sedutil-cli --query` lines say of a drive, line by line: it
/// is OPAL 2.0 exactly when some line names "OPAL 2"; it is locked exactly
/// when some other line names "Locked" with a "Y"; its locking is enabled
/// exactly when some line names "LockingEnabled" with a "Y" and neither of
/// the former.
pub proof fn lemma_opal_query_lines(ls: Seq<Seq<char>>)
    ensures
        opal_scan(ls).0 <==> exists|i: int| 0 <= i < ls.len() && contains(#[trigger] ls[i], "OPAL 2"@),
        opal_scan(ls).1 <==> exists|i: int|
            0 <= i < ls.len() && !contains(#[trigger] ls[i], "OPAL 2"@) && contains(ls[i], "Locked"@)
                && contains(ls[i], "Y"@),
        opal_scan(ls).2 <==> exists|i: int|
            0 <= i < ls.len() && !contains(#[trigger] ls[i], "OPAL 2"@) && !(contains(ls[i], "Locked"@)
                && contains(ls[i], "Y"@)) && contains(ls[i], "LockingEnabled"@) && contains(ls[i], "Y"@),
    decreases ls.len(),
{
    if ls.len() > 0 {
        let p = ls.drop_last();
        lemma_opal_query_lines(p);
        let n = ls.len() - 1;
        assert(ls[n] == ls.last());
        assert forall|i: int| 0 <= i < p.len() implies #[trigger] p[i] == ls[i] by {}
        if opal_scan(p).0 {
            let i = choose|i: int| 0 <= i < p.len() && contains(#[trigger] p[i], "OPAL 2"@);
            assert(p[i] == ls[i]);
        }
        if opal_scan(p).1 {
            let i = choose|i: int|
                0 <= i < p.len() && !contains(#[trigger] p[i], "OPAL 2"@) && contains(p[i], "Locked"@)
                    && contains(p[i], "Y"@);
            assert(p[i] == ls[i]);
        }
        if opal_scan(p).2 {
            let i = choose|i: int|
                0 <= i < p.len() && !contains(#[trigger] p[i], "OPAL 2"@) && !(contains(p[i], "Locked"@)
                    && contains(p[i], "Y"@)) && contains(p[i], "LockingEnabled"@) && contains(p[i], "Y"@);
            assert(p[i] == ls[i]);
        }
        assert forall|i: int| 0 <= i < n implies #[trigger] ls[i] == p[i] by {}
    }
}

} // verus!
