//! Installing the server as a launchd agent.
use vstd::prelude::*;
use vstd::string::*;

use crate::text::push_decimal;

verus! {

/// One step of installing or removing the agent. The steps are taken in order,
/// and `after_step` says whether to go on.
#[derive(Debug)]
pub enum LaunchStep {
    /// Run `launchctl unload` on a file, discarding its output. A failure is
    /// passed over: the agent may not be loaded.
    Unload(String),
    /// Run `launchctl load` on a file. What it exits with is passed over.
    Load(String),
    /// Remove a file.
    RemoveFile(String),
    /// Create a directory and those above it.
    CreateDir(String),
    /// Write a file.
    WriteFile { path: String, text: String },
    /// Tell the user.
    Report(String),
}

/// The steps by the characters of their texts.
pub enum LaunchStepView {
    Unload(Seq<char>),
    Load(Seq<char>),
    RemoveFile(Seq<char>),
    CreateDir(Seq<char>),
    WriteFile(Seq<char>, Seq<char>),
    Report(Seq<char>),
}

impl View for LaunchStep {
    type V = LaunchStepView;

    open spec fn view(&self) -> LaunchStepView {
        match self {
            LaunchStep::Unload(path) => LaunchStepView::Unload(path@),
            LaunchStep::Load(path) => LaunchStepView::Load(path@),
            LaunchStep::RemoveFile(path) => LaunchStepView::RemoveFile(path@),
            LaunchStep::CreateDir(path) => LaunchStepView::CreateDir(path@),
            LaunchStep::WriteFile { path, text } => LaunchStepView::WriteFile(path@, text@),
            LaunchStep::Report(line) => LaunchStepView::Report(line@),
        }
    }
}

/// The directory of the user's agents.
pub open spec fn agents_dir(home: Seq<char>) -> Seq<char> {
    home + "/Library/LaunchAgents"@
}

/// The file that describes the agent.
pub open spec fn plist_path(home: Seq<char>) -> Seq<char> {
    home + "/Library/LaunchAgents/com.macmon.plist"@
}

/// The description of the agent: it runs the program on a port, from login on,
/// and is kept alive.
pub open spec fn plist_text(bin: Seq<char>, port: u16) -> Seq<char> {
    PLIST_HEAD@ + bin + PLIST_ARGS@ + crate::text::decimal(port as nat) + PLIST_TAIL@
}

/// The description up to the program.
pub const PLIST_HEAD: &'static str = r#"<?xml version="1.0" encoding="UTF-8"?>
<!DOCTYPE plist PUBLIC "-//Apple//DTD PLIST 1.0//EN" "http://www.apple.com/DTDs/PropertyList-1.0.dtd">
<plist version="1.0">
<dict>
  <key>Label</key>
  <string>com.macmon</string>
  <key>ProgramArguments</key>
  <array>
    <string>"#;

/// The description between the program and the port.
pub const PLIST_ARGS: &'static str = r#"</string>
    <string>serve</string>
    <string>--port</string>
    <string>"#;

/// The description after the port.
pub const PLIST_TAIL: &'static str = r#"</string>
  </array>
  <key>RunAtLoad</key>
  <true/>
  <key>KeepAlive</key>
  <true/>
</dict>
</plist>
"#;

/// The steps that remove the agent.
pub open spec fn uninstall_steps(home: Seq<char>) -> Seq<LaunchStepView> {
    seq![
        LaunchStepView::Unload(plist_path(home)),
        LaunchStepView::RemoveFile(plist_path(home)),
        LaunchStepView::Report("macmon service uninstalled"@),
    ]
}

/// The steps that install the agent, replacing one that runs.
pub open spec fn install_steps(home: Seq<char>, bin: Seq<char>, port: u16) -> Seq<LaunchStepView> {
    seq![
        LaunchStepView::CreateDir(agents_dir(home)),
        LaunchStepView::Unload(plist_path(home)),
        LaunchStepView::WriteFile(plist_path(home), plist_text(bin, port)),
        LaunchStepView::Load(plist_path(home)),
        LaunchStepView::Report("macmon service installed: "@ + plist_path(home)),
        LaunchStepView::Report(
            "serving on http://localhost:"@ + crate::text::decimal(port as nat),
        ),
    ]
}

/// Joins two texts.
fn joined(a: &str, b: &str) -> (r: String)
    ensures
        r@ == a@ + b@,
{
    let mut out = a.to_owned();
    out.append(b);
    out
}

/// Writes the description of the agent.
fn plist(bin: &str, port: u16) -> (r: String)
    ensures
        r@ == plist_text(bin@, port),
{
    let mut out = PLIST_HEAD.to_owned();
    out.append(bin);
    out.append(PLIST_ARGS);
    push_decimal(&mut out, port as u64);
    out.append(PLIST_TAIL);
    out
}

/// Plans the installation or the removal of the agent for the user whose home
/// directory and whose program are given, where they could be told. Without a
/// home directory there is nothing to do. A removal does not depend on the
/// program or the port.
pub fn launchd(
    port: u16,
    install: bool,
    home: Result<String, String>,
    bin: Result<String, String>,
) -> (r: Result<Vec<LaunchStep>, String>)
    ensures
        match home {
            Err(e) => r == Err::<Vec<LaunchStep>, String>(e),
            Ok(home) => if !install {
                r matches Ok(steps) && steps@.map_values(|s: LaunchStep| s@) == uninstall_steps(
                    home@,
                )
            } else {
                match bin {
                    Err(e) => r == Err::<Vec<LaunchStep>, String>(e),
                    Ok(bin) => r matches Ok(steps) && steps@.map_values(|s: LaunchStep| s@)
                        == install_steps(home@, bin@, port),
                }
            },
        },
{
    let home = match home {
        Ok(home) => home,
        Err(e) => return Err(e),
    };
    let path = joined(home.as_str(), "/Library/LaunchAgents/com.macmon.plist");
    if !install {
        let steps = vec![
            LaunchStep::Unload(path.clone()),
            LaunchStep::RemoveFile(path),
            LaunchStep::Report("macmon service uninstalled".to_owned()),
        ];
        assert(steps@.map_values(|s: LaunchStep| s@) =~= uninstall_steps(home@));
        return Ok(steps);
    }
    let bin = match bin {
        Ok(bin) => bin,
        Err(e) => return Err(e),
    };
    let mut serving = "serving on http://localhost:".to_owned();
    push_decimal(&mut serving, port as u64);
    let steps = vec![
        LaunchStep::CreateDir(joined(home.as_str(), "/Library/LaunchAgents")),
        LaunchStep::Unload(path.clone()),
        LaunchStep::WriteFile { path: path.clone(), text: plist(bin.as_str(), port) },
        LaunchStep::Load(path.clone()),
        LaunchStep::Report(joined("macmon service installed: ", path.as_str())),
        LaunchStep::Report(serving),
    ];
    assert(steps@.map_values(|s: LaunchStep| s@) =~= install_steps(home@, bin@, port));
    Ok(steps)
}

/// Whether a step that ended so lets the steps after it be taken: it succeeded,
/// or it was an unload.
pub open spec fn goes_on(step: LaunchStepView, outcome: Result<(), String>) -> bool {
    outcome is Ok || step is Unload
}

/// What a step or a whole run failed with, if it did.
pub open spec fn failure(outcome: Result<(), String>) -> Option<String> {
    match outcome {
        Ok(_) => None,
        Err(e) => Some(e),
    }
}

/// Decides by the outcome of a step whether to take the next one. A failed
/// unload is passed over; any other failure is that of the whole.
pub fn after_step(step: &LaunchStep, outcome: Result<(), String>) -> (r: Result<(), String>)
    ensures
        failure(r) == (if goes_on(step@, outcome) {
            None
        } else {
            failure(outcome)
        }),
{
    match step {
        LaunchStep::Unload(_) => Ok(()),
        _ => outcome,
    }
}

/// What taking some steps in order fails with, if they have these outcomes.
/// Those after one that does not go on are not taken, and their outcomes do not
/// count.
pub open spec fn run_failure(
    steps: Seq<LaunchStepView>,
    outcomes: Seq<Result<(), String>>,
) -> Option<String>
    decreases steps.len(),
{
    if steps.len() == 0 {
        None
    } else if goes_on(steps[0], outcomes[0]) {
        run_failure(steps.drop_first(), outcomes.drop_first())
    } else {
        failure(outcomes[0])
    }
}

/// A removal ends as removing the file does, whatever becomes of the unload, and
/// neither creates nor loads anything. Telling the user does not fail.
pub proof fn removal_ends_as_removing_the_file(
    home: Seq<char>,
    outcomes: Seq<Result<(), String>>,
)
    requires
        outcomes.len() == uninstall_steps(home).len(),
        outcomes[2] is Ok,
    ensures
        uninstall_steps(home)[1] == LaunchStepView::RemoveFile(plist_path(home)),
        run_failure(uninstall_steps(home), outcomes) == failure(outcomes[1]),
        forall|i: int|
            0 <= i < uninstall_steps(home).len() ==> {
                let step = #[trigger] uninstall_steps(home)[i];
                !(step is CreateDir) && !(step is WriteFile) && !(step is Load)
            },
{
    reveal_with_fuel(run_failure, 4);
}

/// An installation ends with the first failure of creating the directory,
/// writing the file and loading it, if any fails, whatever becomes of the
/// unload. Telling the user does not fail.
pub proof fn installation_ends_with_first_failure(
    home: Seq<char>,
    bin: Seq<char>,
    port: u16,
    outcomes: Seq<Result<(), String>>,
)
    requires
        outcomes.len() == install_steps(home, bin, port).len(),
        outcomes[4] is Ok,
        outcomes[5] is Ok,
    ensures
        install_steps(home, bin, port)[0] is CreateDir,
        install_steps(home, bin, port)[2] is WriteFile,
        install_steps(home, bin, port)[3] is Load,
        run_failure(install_steps(home, bin, port), outcomes) == (if outcomes[0] is Err {
            failure(outcomes[0])
        } else if outcomes[2] is Err {
            failure(outcomes[2])
        } else {
            failure(outcomes[3])
        }),
{
    reveal_with_fuel(run_failure, 7);
}

/// Removing the agent removes the file that installing it wrote, in the
/// directory that installing it created.
pub proof fn uninstall_removes_what_install_wrote(home: Seq<char>, bin: Seq<char>, port: u16)
    ensures
        ({
            let put = install_steps(home, bin, port);
            let gone = uninstall_steps(home);
            &&& gone.contains(LaunchStepView::RemoveFile(plist_path(home)))
            &&& put.contains(LaunchStepView::WriteFile(plist_path(home), plist_text(bin, port)))
            &&& put.contains(LaunchStepView::CreateDir(agents_dir(home)))
            &&& crate::text::has_prefix(plist_path(home), agents_dir(home) + "/"@)
        }),
{
    let put = install_steps(home, bin, port);
    let gone = uninstall_steps(home);
    assert(gone[1] == LaunchStepView::RemoveFile(plist_path(home)));
    assert(put[2] == LaunchStepView::WriteFile(plist_path(home), plist_text(bin, port)));
    assert(put[0] == LaunchStepView::CreateDir(agents_dir(home)));
    reveal_strlit("/Library/LaunchAgents/com.macmon.plist");
    reveal_strlit("/Library/LaunchAgents");
    reveal_strlit("/");
    let dir = agents_dir(home) + "/"@;
    assert(plist_path(home).subrange(0, dir.len() as int) =~= dir);
}

/// Installing an agent writes the description that starts the program it was
/// given with the port it was given, where launchd looks for it, loads it, and
/// tells the user that port.
pub proof fn installed_agent_serves_on_its_port(
    port: u16,
    home: String,
    bin: String,
    steps: Vec<LaunchStep>,
)
    requires
        call_ensures(
            launchd,
            (port, true, Ok::<String, String>(home), Ok::<String, String>(bin)),
            Ok::<Vec<LaunchStep>, String>(steps),
        ),
    ensures
        exists|digits: Seq<char>|
            {
                let file = home@ + "/Library/LaunchAgents/com.macmon.plist"@;
                &&& #[trigger] crate::text::decimal_value(digits) == port
                &&& digits == crate::text::decimal(port as nat)
                &&& steps@.len() == 6
                &&& steps@[0] matches LaunchStep::CreateDir(dir) && dir@ == home@
                    + "/Library/LaunchAgents"@
                &&& steps@[1] matches LaunchStep::Unload(path) && path@ == file
                &&& steps@[2] matches LaunchStep::WriteFile { path, text } && path@ == file && text@
                    == r#"<?xml version="1.0" encoding="UTF-8"?>
<!DOCTYPE plist PUBLIC "-//Apple//DTD PLIST 1.0//EN" "http://www.apple.com/DTDs/PropertyList-1.0.dtd">
<plist version="1.0">
<dict>
  <key>Label</key>
  <string>com.macmon</string>
  <key>ProgramArguments</key>
  <array>
    <string>"#@ + bin@ + r#"</string>
    <string>serve</string>
    <string>--port</string>
    <string>"#@ + digits + r#"</string>
  </array>
  <key>RunAtLoad</key>
  <true/>
  <key>KeepAlive</key>
  <true/>
</dict>
</plist>
"#@
                &&& steps@[3] matches LaunchStep::Load(path) && path@ == file
                &&& steps@[4] matches LaunchStep::Report(line) && line@
                    == "macmon service installed: "@ + file
                &&& steps@[5] matches LaunchStep::Report(line) && line@
                    == "serving on http://localhost:"@ + digits
            },
{
    let digits = crate::text::decimal(port as nat);
    crate::text::decimal_reads_back(port as nat);
    let views = steps@.map_values(|s: LaunchStep| s@);
    let expected = install_steps(home@, bin@, port);
    assert(views == expected);
    assert forall|i: int| 0 <= i < 6 implies (#[trigger] steps@[i])@ == expected[i] by {
        assert(views[i] == steps@[i]@);
    }
    assert(expected.len() == 6);
    assert(steps@[0]@ == expected[0]);
    assert(steps@[1]@ == expected[1]);
    assert(steps@[2]@ == expected[2]);
    assert(steps@[3]@ == expected[3]);
    assert(steps@[4]@ == expected[4]);
    assert(steps@[5]@ == expected[5]);
    assert(crate::text::decimal_value(digits) == port);
}

/// The descriptions for two ports differ.
pub proof fn descriptions_for_two_ports_differ(bin: Seq<char>, a: u16, b: u16)
    requires
        a != b,
    ensures
        plist_text(bin, a) != plist_text(bin, b),
{
    let (x, y) = (crate::text::decimal(a as nat), crate::text::decimal(b as nat));
    let (s, t) = (plist_text(bin, a), plist_text(bin, b));
    let front = PLIST_HEAD@ + bin + PLIST_ARGS@;
    crate::text::decimals_differ(a as nat, b as nat);
    if s == t {
        let n = front.len() as int;
        assert(s.len() == n + x.len() + PLIST_TAIL@.len());
        assert(t.len() == n + y.len() + PLIST_TAIL@.len());
        assert(s.subrange(n, n + x.len()) =~= x);
        assert(t.subrange(n, n + y.len()) =~= y);
    }
}

/// Removing an agent unloads it and removes the file that describes it, whatever
/// the port and whether or not the program can be told.
pub proof fn removed_agent_is_unloaded_and_its_file_removed(
    port: u16,
    home: String,
    bin: Result<String, String>,
    r: Result<Vec<LaunchStep>, String>,
)
    requires
        call_ensures(launchd, (port, false, Ok::<String, String>(home), bin), r),
    ensures
        r matches Ok(steps) && {
            let file = home@ + "/Library/LaunchAgents/com.macmon.plist"@;
            &&& steps@.len() == 3
            &&& steps@[0] matches LaunchStep::Unload(path) && path@ == file
            &&& steps@[1] matches LaunchStep::RemoveFile(path) && path@ == file
            &&& steps@[2] matches LaunchStep::Report(line) && line@ == "macmon service uninstalled"@
        },
{
    let steps = r->Ok_0;
    let views = steps@.map_values(|s: LaunchStep| s@);
    let expected = uninstall_steps(home@);
    assert(views == expected);
    assert(views.len() == 3);
    assert(views[0] == steps@[0]@);
    assert(views[1] == steps@[1]@);
    assert(views[2] == steps@[2]@);
}

/// What cannot be told makes the whole fail: the home directory first, and the
/// program only for an installation.
pub proof fn agent_needs_home_and_program(
    port: u16,
    install: bool,
    home: Result<String, String>,
    bin: Result<String, String>,
    r: Result<Vec<LaunchStep>, String>,
)
    requires
        call_ensures(launchd, (port, install, home, bin), r),
    ensures
        r is Err <==> home is Err || install && bin is Err,
        home matches Err(e) ==> r == Err::<Vec<LaunchStep>, String>(e),
        home is Ok && install && bin is Err ==> r == Err::<Vec<LaunchStep>, String>(bin->Err_0),
{
}

/// Every failure but that of an unload ends the run, and is its failure.
pub proof fn only_an_unload_may_fail(
    step: &LaunchStep,
    outcome: Result<(), String>,
    r: Result<(), String>,
)
    requires
        call_ensures(after_step, (step, outcome), r),
    ensures
        step is Unload ==> r is Ok,
        !(step is Unload) ==> r is Ok == outcome is Ok && (outcome is Err ==> r->Err_0
            == outcome->Err_0),
{
}

} // verus!
