//! The unfreeze procedures of the RAID-controller vendors, as step machines:
//! each step names the command to run, the pause to make or the result, and
//! the outcome of the command decides the step after it. Running the
//! commands and pausing is left to the caller.
use vstd::prelude::*;

use crate::text::{chars_of, push_str, string_from_chars, trim, trim_exec};
use crate::vendor::ControllerVendor;

verus! {

broadcast use vstd::string::group_string_axioms;

/// What came of the last command.
#[derive(Debug, Clone, Copy, PartialEq, Eq, Structural)]
pub enum RunOutcome {
    /// It could not be started.
    NotStarted,
    /// It ran and exited with an error.
    Failed,
    /// It ran and exited successfully.
    Succeeded,
}

/// What a procedure asks for next.
#[derive(Debug, Clone, PartialEq, Eq)]
pub enum VendorAction {
    /// Run the tool with the arguments and report the outcome (and, where
    /// it ran, what it printed).
    Run(String, Vec<String>),
    /// Pause for this many seconds.
    Sleep(u64),
    /// Rescan the SATA host of the drive; report success where the drive's
    /// serial and host were found.
    RescanHost,
    /// The procedure is over: done, or failed with the message.
    Finish(Option<String>),
}

/// An action as a value of the specification.
pub enum Act {
    Run(Seq<char>, Seq<Seq<char>>),
    Sleep(nat),
    RescanHost,
    Finish(Option<Seq<char>>),
}

/// The texts of a list of arguments.
pub open spec fn arg_texts(v: Seq<String>) -> Seq<Seq<char>> {
    v.map_values(|a: String| a@)
}

impl VendorAction {
    /// The action as a value of the specification.
    pub open spec fn act(&self) -> Act {
        match self {
            VendorAction::Run(t, a) => Act::Run(t@, arg_texts(a@)),
            VendorAction::Sleep(s) => Act::Sleep(*s as nat),
            VendorAction::RescanHost => Act::RescanHost,
            VendorAction::Finish(m) => Act::Finish(
                match m {
                    Some(s) => Some(s@),
                    None => None,
                },
            ),
        }
    }
}

/// The step after a procedure succeeded.
pub const DONE: u32 = 100;

/// The step after a procedure failed.
pub const FAILED: u32 = 101;

/// Whether the command was started at all.
pub open spec fn ran(o: RunOutcome) -> bool {
    o != RunOutcome::NotStarted
}

/// The end of a procedure: its result.
pub open spec fn ending(step: nat, failure: Seq<char>) -> (nat, Act) {
    if step == FAILED {
        (FAILED as nat, Act::Finish(Some(failure)))
    } else {
        (DONE as nat, Act::Finish(None))
    }
}

/// Dell PERC, for physical disk `p` (`e<enclosure>/s<slot>`): stop any
/// initialization, set the drive to JBOD and, where that worked, clear the
/// foreign configuration and spin the drive down and up; else set the cache
/// flush interval to 0 and back to 4, failing where that could not run.
pub open spec fn dell_step(p: Seq<char>, step: nat, last: RunOutcome) -> (nat, Act) {
    let d = "/c0/"@ + p;
    if step == 0 {
        (1, Act::Run("percli"@, seq![d, "stop"@, "initialization"@]))
    } else if step == 1 {
        (2, Act::Sleep(1))
    } else if step == 2 {
        (3, Act::Run("percli"@, seq![d, "set"@, "jbod"@]))
    } else if step == 3 {
        if last == RunOutcome::Succeeded {
            (4, Act::Sleep(2))
        } else {
            (10, Act::Run("percli"@, seq!["/c0"@, "set"@, "cacheflushinterval=0"@]))
        }
    } else if step == 4 {
        (5, Act::Run("percli"@, seq!["/c0"@, "/fall"@, "delete"@]))
    } else if step == 5 {
        (6, Act::Run("percli"@, seq![d, "spindown"@]))
    } else if step == 6 {
        (7, Act::Sleep(2))
    } else if step == 7 {
        (8, Act::Run("percli"@, seq![d, "spinup"@]))
    } else if step == 8 {
        (DONE as nat, Act::Sleep(3))
    } else if step == 10 {
        if ran(last) {
            (11, Act::Sleep(1))
        } else {
            (FAILED as nat, Act::Finish(Some("Dell PERC unfreeze failed"@)))
        }
    } else if step == 11 {
        (DONE as nat, Act::Run("percli"@, seq!["/c0"@, "set"@, "cacheflushinterval=4"@]))
    } else {
        ending(step, "Dell PERC unfreeze failed"@)
    }
}

/// The `hpssacli` arguments that modify physical drive `a`.
pub open spec fn hp_modify(a: Seq<char>, what: Seq<char>) -> Seq<Seq<char>> {
    seq!["ctrl"@, "slot=0"@, "pd"@, a, "modify"@, what]
}

/// HP SmartArray, for physical drive `a`: clear its security, done where
/// that worked; else blink its LED, and switch SSD smart path off and on
/// where that could run; else flush the controller cache, failing where
/// that could not run.
pub open spec fn hp_step(a: Seq<char>, step: nat, last: RunOutcome) -> (nat, Act) {
    if step == 0 {
        (1, Act::Run("hpssacli"@, hp_modify(a, "clearsecurity"@)))
    } else if step == 1 {
        if last == RunOutcome::Succeeded {
            (DONE as nat, Act::Finish(None))
        } else {
            (2, Act::Run("hpssacli"@, hp_modify(a, "led=on"@)))
        }
    } else if step == 2 {
        (3, Act::Sleep(1))
    } else if step == 3 {
        (4, Act::Run("hpssacli"@, hp_modify(a, "led=off"@)))
    } else if step == 4 {
        (5, Act::Run("hpssacli"@, hp_modify(a, "ssdsmartpathstatus=disable"@)))
    } else if step == 5 {
        if ran(last) {
            (6, Act::Sleep(2))
        } else {
            (8, Act::Run("hpssacli"@, seq!["ctrl"@, "slot=0"@, "modify"@, "cacheflush"@]))
        }
    } else if step == 6 {
        (DONE as nat, Act::Run("hpssacli"@, hp_modify(a, "ssdsmartpathstatus=enable"@)))
    } else if step == 8 {
        if ran(last) {
            (DONE as nat, Act::Finish(None))
        } else {
            (FAILED as nat, Act::Finish(Some("HP SmartArray unfreeze failed"@)))
        }
    } else {
        ending(step, "HP SmartArray unfreeze failed"@)
    }
}

/// The MegaCLI arguments that clear physical drive `i`.
pub open spec fn megacli_clear(i: Seq<char>) -> Seq<Seq<char>> {
    seq!["-PdClear"@, "-Start"@, "-PhysDrv"@, i, "-a0"@]
}

/// LSI MegaRAID, for drive `i` (`e<enclosure>/s<slot>`): stop background
/// initialization, delete foreign configurations, set the drive good, spin
/// it down and, where that worked, up again; then clear it with MegaCLI,
/// done where that worked; else stop and restart patrol reads, failing
/// where that could not run.
pub open spec fn lsi_step(i: Seq<char>, step: nat, last: RunOutcome) -> (nat, Act) {
    let d = "/c0/"@ + i;
    if step == 0 {
        (1, Act::Run("storcli64"@, seq!["/c0"@, "stop"@, "bgi"@]))
    } else if step == 1 {
        (2, Act::Run("storcli64"@, seq!["/c0"@, "/fall"@, "delete"@]))
    } else if step == 2 {
        (3, Act::Run("storcli64"@, seq![d, "set"@, "good"@, "force"@]))
    } else if step == 3 {
        (4, Act::Run("storcli64"@, seq![d, "spindown"@]))
    } else if step == 4 {
        if last == RunOutcome::Succeeded {
            (5, Act::Sleep(3))
        } else {
            (8, Act::Run("megacli"@, megacli_clear(i)))
        }
    } else if step == 5 {
        (6, Act::Run("storcli64"@, seq![d, "spinup"@]))
    } else if step == 6 {
        (7, Act::Sleep(2))
    } else if step == 7 {
        (8, Act::Run("megacli"@, megacli_clear(i)))
    } else if step == 8 {
        if last == RunOutcome::Succeeded {
            (DONE as nat, Act::Finish(None))
        } else {
            (9, Act::Run("storcli64"@, seq!["/c0"@, "set"@, "patrolread=stop"@]))
        }
    } else if step == 9 {
        if ran(last) {
            (10, Act::Sleep(1))
        } else {
            (FAILED as nat, Act::Finish(Some("LSI MegaRAID unfreeze failed"@)))
        }
    } else if step == 10 {
        (DONE as nat, Act::Run("storcli64"@, seq!["/c0"@, "set"@, "patrolread=start"@]))
    } else {
        ending(step, "LSI MegaRAID unfreeze failed"@)
    }
}

/// Adaptec, for device `i` (`<channel> <device>`): set it to non-RAID, done
/// where that worked; else identify it, then stop its background tasks,
/// done where that could run; else rescan the controller, failing where
/// that could not run.
pub open spec fn adaptec_step(i: Seq<char>, step: nat, last: RunOutcome) -> (nat, Act) {
    if step == 0 {
        (
            1,
            Act::Run(
                "arcconf"@,
                seq!["setstate"@, "controller"@, "1"@, "device"@, i, "state"@, "non-raid"@],
            ),
        )
    } else if step == 1 {
        if last == RunOutcome::Succeeded {
            (DONE as nat, Act::Sleep(2))
        } else {
            (
                3,
                Act::Run(
                    "arcconf"@,
                    seq!["identify"@, "controller"@, "1"@, "device"@, i, "time"@, "2"@],
                ),
            )
        }
    } else if step == 3 {
        (4, Act::Sleep(3))
    } else if step == 4 {
        (5, Act::Run("arcconf"@, seq!["task"@, "stop"@, "controller"@, "1"@, "device"@, i]))
    } else if step == 5 {
        if ran(last) {
            (DONE as nat, Act::Sleep(1))
        } else {
            (6, Act::Run("arcconf"@, seq!["rescan"@, "controller"@, "1"@]))
        }
    } else if step == 6 {
        if ran(last) {
            (DONE as nat, Act::Finish(None))
        } else {
            (FAILED as nat, Act::Finish(Some("Adaptec unfreeze failed"@)))
        }
    } else {
        ending(step, "Adaptec unfreeze failed"@)
    }
}

/// Intel RST, for the SATA controller at PCI address `a`, with `saved` the
/// MAP register as read: read the register, switch to AHCI and, where that
/// worked, restore the register; else restart the RST service where its
/// tool is installed; else rescan the drive's SATA host, failing where that
/// could not be done.
pub open spec fn intel_step(a: Seq<char>, saved: Seq<char>, step: nat, last: RunOutcome) -> (nat, Act) {
    if step == 0 {
        (1, Act::Run("setpci"@, seq!["-s"@, a, "0x90.w"@]))
    } else if step == 1 {
        if ran(last) {
            (2, Act::Run("setpci"@, seq!["-s"@, a, "0x90.w=0x00"@]))
        } else {
            (FAILED as nat, Act::Finish(Some("Intel RST unfreeze failed"@)))
        }
    } else if step == 2 {
        if last == RunOutcome::Succeeded {
            (3, Act::Sleep(2))
        } else {
            (6, Act::Run("which"@, seq!["rstcli64"@]))
        }
    } else if step == 3 {
        (4, Act::Run("setpci"@, seq!["-s"@, a, "0x90.w=0x"@ + saved]))
    } else if step == 4 {
        (DONE as nat, Act::Sleep(1))
    } else if step == 6 {
        if last == RunOutcome::Succeeded {
            (7, Act::Run("rstcli64"@, seq!["--stop-service"@]))
        } else {
            (9, Act::RescanHost)
        }
    } else if step == 7 {
        (8, Act::Sleep(2))
    } else if step == 8 {
        (DONE as nat, Act::Run("rstcli64"@, seq!["--start-service"@]))
    } else if step == 9 {
        if last == RunOutcome::Succeeded {
            (DONE as nat, Act::Finish(None))
        } else {
            (FAILED as nat, Act::Finish(Some("Intel RST unfreeze failed"@)))
        }
    } else {
        ending(step, "Intel RST unfreeze failed"@)
    }
}

/// The step of a vendor's procedure: the next step and the action.
pub open spec fn vendor_step(
    v: ControllerVendor,
    target: Seq<char>,
    saved: Seq<char>,
    step: nat,
    last: RunOutcome,
) -> (nat, Act) {
    match v {
        ControllerVendor::DellPerc => dell_step(target, step, last),
        ControllerVendor::HpSmartArray => hp_step(target, step, last),
        ControllerVendor::LsiMegaRaid => lsi_step(target, step, last),
        ControllerVendor::Adaptec => adaptec_step(target, step, last),
        ControllerVendor::IntelRst => intel_step(target, saved, step, last),
        ControllerVendor::Unknown => (FAILED as nat, Act::Finish(Some("Unknown or unsupported vendor"@))),
    }
}

/// The MAP register after a step: what the register read printed, trimmed,
/// once Intel RST's first command has run.
pub open spec fn saved_after(
    v: ControllerVendor,
    saved: Seq<char>,
    step: nat,
    last: RunOutcome,
    output: Seq<char>,
) -> Seq<char> {
    if v == ControllerVendor::IntelRst && step == 1 && ran(last) {
        trim(output)
    } else {
        saved
    }
}

/// Law: every step of a procedure moves it forward, until it rests at its
/// end, where it gives its result again; so a procedure is over within 101
/// steps, whatever its commands do. It ends in failure exactly when its
/// result carries a message.
pub proof fn lemma_procedure_progresses(
    v: ControllerVendor,
    target: Seq<char>,
    saved: Seq<char>,
    step: nat,
    last: RunOutcome,
)
    requires
        step <= FAILED,
    ensures
        vendor_step(v, target, saved, step, last).0 > step || (vendor_step(v, target, saved, step, last).0
            == step && (step == DONE || step == FAILED) && vendor_step(v, target, saved, step, last).1 is Finish),
        vendor_step(v, target, saved, step, last).0 <= FAILED,
        vendor_step(v, target, saved, step, last).1 matches Act::Finish(m) ==> (m is Some <==> vendor_step(
            v,
            target,
            saved,
            step,
            last,
        ).0 == FAILED),
{
}

/// A vendor's unfreeze procedure in progress.
pub struct VendorProcedure {
    vendor: ControllerVendor,
    target: String,
    saved: String,
    step: u32,
}

fn text(s: &str) -> (r: String)
    ensures
        r@ == s@,
{
    s.to_string()
}

fn joined(a: &str, b: &str) -> (r: String)
    ensures
        r@ == a@ + b@,
{
    let mut v = chars_of(a);
    push_str(&mut v, b);
    string_from_chars(&v)
}

fn args1(a: &str) -> (v: Vec<String>)
    ensures
        arg_texts(v@) == seq![a@],
{
    let mut v: Vec<String> = Vec::new();
    v.push(text(a));
    assert(arg_texts(v@) =~= seq![a@]);
    v
}

fn args2(a: &str, b: &str) -> (v: Vec<String>)
    ensures
        arg_texts(v@) == seq![a@, b@],
{
    let mut v: Vec<String> = Vec::new();
    v.push(text(a));
    v.push(text(b));
    assert(arg_texts(v@) =~= seq![a@, b@]);
    v
}

fn args3(a: &str, b: &str, c: &str) -> (v: Vec<String>)
    ensures
        arg_texts(v@) == seq![a@, b@, c@],
{
    let mut v: Vec<String> = Vec::new();
    v.push(text(a));
    v.push(text(b));
    v.push(text(c));
    assert(arg_texts(v@) =~= seq![a@, b@, c@]);
    v
}

fn args4(a: &str, b: &str, c: &str, d: &str) -> (v: Vec<String>)
    ensures
        arg_texts(v@) == seq![a@, b@, c@, d@],
{
    let mut v: Vec<String> = Vec::new();
    v.push(text(a));
    v.push(text(b));
    v.push(text(c));
    v.push(text(d));
    assert(arg_texts(v@) =~= seq![a@, b@, c@, d@]);
    v
}

fn args5(a: &str, b: &str, c: &str, d: &str, e: &str) -> (v: Vec<String>)
    ensures
        arg_texts(v@) == seq![a@, b@, c@, d@, e@],
{
    let mut v: Vec<String> = Vec::new();
    v.push(text(a));
    v.push(text(b));
    v.push(text(c));
    v.push(text(d));
    v.push(text(e));
    assert(arg_texts(v@) =~= seq![a@, b@, c@, d@, e@]);
    v
}

fn args6(a: &str, b: &str, c: &str, d: &str, e: &str, f: &str) -> (v: Vec<String>)
    ensures
        arg_texts(v@) == seq![a@, b@, c@, d@, e@, f@],
{
    let mut v: Vec<String> = Vec::new();
    v.push(text(a));
    v.push(text(b));
    v.push(text(c));
    v.push(text(d));
    v.push(text(e));
    v.push(text(f));
    assert(arg_texts(v@) =~= seq![a@, b@, c@, d@, e@, f@]);
    v
}

fn args7(a: &str, b: &str, c: &str, d: &str, e: &str, f: &str, g: &str) -> (v: Vec<String>)
    ensures
        arg_texts(v@) == seq![a@, b@, c@, d@, e@, f@, g@],
{
    let mut v: Vec<String> = Vec::new();
    v.push(text(a));
    v.push(text(b));
    v.push(text(c));
    v.push(text(d));
    v.push(text(e));
    v.push(text(f));
    v.push(text(g));
    assert(arg_texts(v@) =~= seq![a@, b@, c@, d@, e@, f@, g@]);
    v
}

fn run(tool: &str, args: Vec<String>) -> (a: VendorAction)
    ensures
        a.act() == Act::Run(tool@, arg_texts(args@)),
{
    VendorAction::Run(text(tool), args)
}

fn finish_failed(m: &str) -> (a: VendorAction)
    ensures
        a.act() == Act::Finish(Some(m@)),
{
    VendorAction::Finish(Some(text(m)))
}

fn finish_done() -> (a: VendorAction)
    ensures
        a.act() == Act::Finish(None),
{
    VendorAction::Finish(None)
}

fn ending_exec(step: u32, failure: &str) -> (r: (u32, VendorAction))
    ensures
        r.0 as nat == ending(step as nat, failure@).0,
        r.1.act() == ending(step as nat, failure@).1,
{
    if step == FAILED {
        (FAILED, finish_failed(failure))
    } else {
        (DONE, finish_done())
    }
}

fn dell_exec(p: &str, step: u32, last: RunOutcome) -> (r: (u32, VendorAction))
    ensures
        r.0 as nat == dell_step(p@, step as nat, last).0,
        r.1.act() == dell_step(p@, step as nat, last).1,
{
    let d = joined("/c0/", p);
    let ds = d.as_str();
    if step == 0 {
        (1, run("percli", args3(ds, "stop", "initialization")))
    } else if step == 1 {
        (2, VendorAction::Sleep(1))
    } else if step == 2 {
        (3, run("percli", args3(ds, "set", "jbod")))
    } else if step == 3 {
        if last == RunOutcome::Succeeded {
            (4, VendorAction::Sleep(2))
        } else {
            (10, run("percli", args3("/c0", "set", "cacheflushinterval=0")))
        }
    } else if step == 4 {
        (5, run("percli", args3("/c0", "/fall", "delete")))
    } else if step == 5 {
        (6, run("percli", args2(ds, "spindown")))
    } else if step == 6 {
        (7, VendorAction::Sleep(2))
    } else if step == 7 {
        (8, run("percli", args2(ds, "spinup")))
    } else if step == 8 {
        (DONE, VendorAction::Sleep(3))
    } else if step == 10 {
        if last != RunOutcome::NotStarted {
            (11, VendorAction::Sleep(1))
        } else {
            (FAILED, finish_failed("Dell PERC unfreeze failed"))
        }
    } else if step == 11 {
        (DONE, run("percli", args3("/c0", "set", "cacheflushinterval=4")))
    } else {
        ending_exec(step, "Dell PERC unfreeze failed")
    }
}

fn hp_exec(a: &str, step: u32, last: RunOutcome) -> (r: (u32, VendorAction))
    ensures
        r.0 as nat == hp_step(a@, step as nat, last).0,
        r.1.act() == hp_step(a@, step as nat, last).1,
{
    if step == 0 {
        (1, run("hpssacli", args6("ctrl", "slot=0", "pd", a, "modify", "clearsecurity")))
    } else if step == 1 {
        if last == RunOutcome::Succeeded {
            (DONE, finish_done())
        } else {
            (2, run("hpssacli", args6("ctrl", "slot=0", "pd", a, "modify", "led=on")))
        }
    } else if step == 2 {
        (3, VendorAction::Sleep(1))
    } else if step == 3 {
        (4, run("hpssacli", args6("ctrl", "slot=0", "pd", a, "modify", "led=off")))
    } else if step == 4 {
        (5, run("hpssacli", args6("ctrl", "slot=0", "pd", a, "modify", "ssdsmartpathstatus=disable")))
    } else if step == 5 {
        if last != RunOutcome::NotStarted {
            (6, VendorAction::Sleep(2))
        } else {
            (8, run("hpssacli", args4("ctrl", "slot=0", "modify", "cacheflush")))
        }
    } else if step == 6 {
        (DONE, run("hpssacli", args6("ctrl", "slot=0", "pd", a, "modify", "ssdsmartpathstatus=enable")))
    } else if step == 8 {
        if last != RunOutcome::NotStarted {
            (DONE, finish_done())
        } else {
            (FAILED, finish_failed("HP SmartArray unfreeze failed"))
        }
    } else {
        ending_exec(step, "HP SmartArray unfreeze failed")
    }
}

fn lsi_exec(i: &str, step: u32, last: RunOutcome) -> (r: (u32, VendorAction))
    ensures
        r.0 as nat == lsi_step(i@, step as nat, last).0,
        r.1.act() == lsi_step(i@, step as nat, last).1,
{
    let d = joined("/c0/", i);
    let ds = d.as_str();
    if step == 0 {
        (1, run("storcli64", args3("/c0", "stop", "bgi")))
    } else if step == 1 {
        (2, run("storcli64", args3("/c0", "/fall", "delete")))
    } else if step == 2 {
        (3, run("storcli64", args4(ds, "set", "good", "force")))
    } else if step == 3 {
        (4, run("storcli64", args2(ds, "spindown")))
    } else if step == 4 {
        if last == RunOutcome::Succeeded {
            (5, VendorAction::Sleep(3))
        } else {
            (8, run("megacli", args5("-PdClear", "-Start", "-PhysDrv", i, "-a0")))
        }
    } else if step == 5 {
        (6, run("storcli64", args2(ds, "spinup")))
    } else if step == 6 {
        (7, VendorAction::Sleep(2))
    } else if step == 7 {
        (8, run("megacli", args5("-PdClear", "-Start", "-PhysDrv", i, "-a0")))
    } else if step == 8 {
        if last == RunOutcome::Succeeded {
            (DONE, finish_done())
        } else {
            (9, run("storcli64", args3("/c0", "set", "patrolread=stop")))
        }
    } else if step == 9 {
        if last != RunOutcome::NotStarted {
            (10, VendorAction::Sleep(1))
        } else {
            (FAILED, finish_failed("LSI MegaRAID unfreeze failed"))
        }
    } else if step == 10 {
        (DONE, run("storcli64", args3("/c0", "set", "patrolread=start")))
    } else {
        ending_exec(step, "LSI MegaRAID unfreeze failed")
    }
}

fn adaptec_exec(i: &str, step: u32, last: RunOutcome) -> (r: (u32, VendorAction))
    ensures
        r.0 as nat == adaptec_step(i@, step as nat, last).0,
        r.1.act() == adaptec_step(i@, step as nat, last).1,
{
    if step == 0 {
        (1, run("arcconf", args7("setstate", "controller", "1", "device", i, "state", "non-raid")))
    } else if step == 1 {
        if last == RunOutcome::Succeeded {
            (DONE, VendorAction::Sleep(2))
        } else {
            (3, run("arcconf", args7("identify", "controller", "1", "device", i, "time", "2")))
        }
    } else if step == 3 {
        (4, VendorAction::Sleep(3))
    } else if step == 4 {
        (5, run("arcconf", args6("task", "stop", "controller", "1", "device", i)))
    } else if step == 5 {
        if last != RunOutcome::NotStarted {
            (DONE, VendorAction::Sleep(1))
        } else {
            (6, run("arcconf", args3("rescan", "controller", "1")))
        }
    } else if step == 6 {
        if last != RunOutcome::NotStarted {
            (DONE, finish_done())
        } else {
            (FAILED, finish_failed("Adaptec unfreeze failed"))
        }
    } else {
        ending_exec(step, "Adaptec unfreeze failed")
    }
}

fn intel_exec(a: &str, saved: &str, step: u32, last: RunOutcome) -> (r: (u32, VendorAction))
    ensures
        r.0 as nat == intel_step(a@, saved@, step as nat, last).0,
        r.1.act() == intel_step(a@, saved@, step as nat, last).1,
{
    if step == 0 {
        (1, run("setpci", args3("-s", a, "0x90.w")))
    } else if step == 1 {
        if last != RunOutcome::NotStarted {
            (2, run("setpci", args3("-s", a, "0x90.w=0x00")))
        } else {
            (FAILED, finish_failed("Intel RST unfreeze failed"))
        }
    } else if step == 2 {
        if last == RunOutcome::Succeeded {
            (3, VendorAction::Sleep(2))
        } else {
            (6, run("which", args1("rstcli64")))
        }
    } else if step == 3 {
        let value = joined("0x90.w=0x", saved);
        (4, run("setpci", args3("-s", a, value.as_str())))
    } else if step == 4 {
        (DONE, VendorAction::Sleep(1))
    } else if step == 6 {
        if last == RunOutcome::Succeeded {
            (7, run("rstcli64", args1("--stop-service")))
        } else {
            (9, VendorAction::RescanHost)
        }
    } else if step == 7 {
        (8, VendorAction::Sleep(2))
    } else if step == 8 {
        (DONE, run("rstcli64", args1("--start-service")))
    } else if step == 9 {
        if last == RunOutcome::Succeeded {
            (DONE, finish_done())
        } else {
            (FAILED, finish_failed("Intel RST unfreeze failed"))
        }
    } else {
        ending_exec(step, "Intel RST unfreeze failed")
    }
}

impl VendorProcedure {
    /// The vendor whose procedure this is.
    pub closed spec fn vendor(&self) -> ControllerVendor {
        self.vendor
    }

    /// The drive or controller the procedure works on.
    pub closed spec fn target(&self) -> Seq<char> {
        self.target@
    }

    /// The register value saved for restoring.
    pub closed spec fn saved(&self) -> Seq<char> {
        self.saved@
    }

    /// The step the procedure is at.
    pub closed spec fn step(&self) -> nat {
        self.step as nat
    }

    /// The procedure of `vendor` on `target` (the disk identifier the
    /// vendor's tool uses, or the controller's PCI address for Intel RST),
    /// at its first step.
    pub fn start(vendor: ControllerVendor, target: &str) -> (p: Self)
        ensures
            p.vendor() == vendor,
            p.target() == target@,
            p.saved() == Seq::<char>::empty(),
            p.step() == 0,
    {
        VendorProcedure { vendor, target: text(target), saved: String::new(), step: 0 }
    }

    /// Whether the procedure is over.
    pub fn finished(&self) -> (b: bool)
        ensures
            b == (self.step() == DONE || self.step() == FAILED),
    {
        self.step == DONE || self.step == FAILED
    }

    /// The next action, given the outcome of the last command and what it
    /// printed (`vendor_step`).
    pub fn next(&mut self, last: RunOutcome, output: &str) -> (a: VendorAction)
        ensures
            a.act() == vendor_step(
                old(self).vendor(),
                old(self).target(),
                old(self).saved(),
                old(self).step(),
                last,
            ).1,
            final(self).step() == vendor_step(
                old(self).vendor(),
                old(self).target(),
                old(self).saved(),
                old(self).step(),
                last,
            ).0,
            final(self).saved() == saved_after(
                old(self).vendor(),
                old(self).saved(),
                old(self).step(),
                last,
                output@,
            ),
            final(self).vendor() == old(self).vendor(),
            final(self).target() == old(self).target(),
    {
        let (next, action) = match self.vendor {
            ControllerVendor::DellPerc => dell_exec(self.target.as_str(), self.step, last),
            ControllerVendor::HpSmartArray => hp_exec(self.target.as_str(), self.step, last),
            ControllerVendor::LsiMegaRaid => lsi_exec(self.target.as_str(), self.step, last),
            ControllerVendor::Adaptec => adaptec_exec(self.target.as_str(), self.step, last),
            ControllerVendor::IntelRst => intel_exec(
                self.target.as_str(),
                self.saved.as_str(),
                self.step,
                last,
            ),
            ControllerVendor::Unknown => (FAILED, finish_failed("Unknown or unsupported vendor")),
        };
        if self.vendor == ControllerVendor::IntelRst && self.step == 1 && last != RunOutcome::NotStarted {
            let cs = chars_of(output);
            let t = trim_exec(&cs);
            self.saved = string_from_chars(&t);
        }
        self.step = next;
        action
    }
}

} // verus!
