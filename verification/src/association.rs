//! Associating `.uproject` files with the launcher for the current user:
//! what to write where, per platform, and the messages reported.

use vstd::prelude::*;
use vstd::string::*;
use crate::paths::{Platform, joined, join_path, is_plain_component};

verus! {

/// What associating `.uproject` files takes on the current platform.
pub enum AssociationPlan {
    /// Under `HKEY_CURRENT_USER\Software\Classes`: key `extension_key` gets
    /// default value `prog_id`, key `command_key` gets default value
    /// `command`.
    Registry { extension_key: String, prog_id: String, command_key: String, command: String },
    /// Write `content` to `file` (creating `dir`), then make it the default
    /// handler of `mime_type` with `xdg-mime default <file_name> <mime_type>`.
    DesktopEntry { dir: String, file: String, file_name: String, content: String, mime_type: String },
}

/// An association plan as plain values.
pub enum AssociationPlanView {
    Registry { extension_key: Seq<char>, prog_id: Seq<char>, command_key: Seq<char>, command: Seq<char> },
    DesktopEntry { dir: Seq<char>, file: Seq<char>, file_name: Seq<char>, content: Seq<char>, mime_type: Seq<char> },
}

impl View for AssociationPlan {
    type V = AssociationPlanView;

    open spec fn view(&self) -> AssociationPlanView {
        match self {
            AssociationPlan::Registry { extension_key, prog_id, command_key, command } => AssociationPlanView::Registry {
                extension_key: extension_key@,
                prog_id: prog_id@,
                command_key: command_key@,
                command: command@,
            },
            AssociationPlan::DesktopEntry { dir, file, file_name, content, mime_type } => AssociationPlanView::DesktopEntry {
                dir: dir@,
                file: file@,
                file_name: file_name@,
                content: content@,
                mime_type: mime_type@,
            },
        }
    }
}

/// The message reported once `.uproject` files are associated.
pub open spec fn associated_message() -> Seq<char> {
    "Associated .uproject files for current user."@
}

/// The message reported on macOS, where association is not automated.
pub open spec fn macos_message() -> Seq<char> {
    "Association is not automated on macOS. Use a packaged .app or set it manually."@
}

/// The message reported on platforms that are neither Windows, macOS nor
/// other Unix.
pub open spec fn unsupported_message() -> Seq<char> {
    "Linux association is not supported on this platform."@
}

/// The message reported when the home directory is unknown.
pub open spec fn home_missing_message() -> Seq<char> {
    "HOME not set"@
}

/// The registry open command: the quoted executable, `--launch` and the
/// quoted file argument `%1`.
pub open spec fn open_command(exe: Seq<char>) -> Seq<char> {
    "\""@ + exe + "\" --launch \"%1\""@
}

/// The desktop entry that opens `.uproject` files with the executable.
pub open spec fn desktop_entry(exe: Seq<char>) -> Seq<char> {
    "[Desktop Entry]\nType=Application\nName=Unreal Project Launcher\nExec="@ + exe
        + " --launch %f\nMimeType=application/x-unreal-project;\nNoDisplay=true\n"@
}

/// Directory of per-user desktop entries under the home directory.
pub open spec fn applications_dir(home: Seq<char>) -> Seq<char> {
    joined(Platform::Linux, joined(Platform::Linux, joined(Platform::Linux, home, ".local"@), "share"@), "applications"@)
}

/// The plan for a platform, given the launcher's executable path (or the
/// error getting it) and the home directory (if known). On macOS and other
/// platforms neither is consulted.
pub open spec fn association_plan(
    platform: Platform,
    exe: Result<Seq<char>, Seq<char>>,
    home: Option<Seq<char>>,
) -> Result<AssociationPlanView, Seq<char>> {
    if platform == Platform::MacOs {
        Err(macos_message())
    } else if platform == Platform::Other {
        Err(unsupported_message())
    } else {
        match exe {
            Err(e) => Err(e),
            Ok(x) => if platform == Platform::Windows {
                Ok(AssociationPlanView::Registry {
                    extension_key: ".uproject"@,
                    prog_id: "UnrealProjectLauncher"@,
                    command_key: "UnrealProjectLauncher\\shell\\open\\command"@,
                    command: open_command(x),
                })
            } else {
                match home {
                    None => Err(home_missing_message()),
                    Some(h) => Ok(AssociationPlanView::DesktopEntry {
                        dir: applications_dir(h),
                        file: joined(Platform::Linux, applications_dir(h), "unreal-project-launcher.desktop"@),
                        file_name: "unreal-project-launcher.desktop"@,
                        content: desktop_entry(x),
                        mime_type: "application/x-unreal-project"@,
                    }),
                }
            },
        }
    }
}

/// The view of a result of strings.
pub open spec fn result_view(r: Result<String, String>) -> Result<Seq<char>, Seq<char>> {
    match r {
        Ok(s) => Ok(s@),
        Err(e) => Err(e@),
    }
}

/// The view of a planned association.
pub open spec fn plan_result_view(r: Result<AssociationPlan, String>) -> Result<AssociationPlanView, Seq<char>> {
    match r {
        Ok(p) => Ok(p@),
        Err(e) => Err(e@),
    }
}

fn plain(s: &'static str) -> (r: &'static str)
    requires
        is_plain_component(s@),
    ensures
        r@ == s@,
{
    s
}

/// Decides how to associate `.uproject` files with the launcher on
/// `platform`.
pub fn associate_uproject(platform: Platform, exe: Result<String, String>, home: Option<String>) -> (r: Result<AssociationPlan, String>)
    ensures
        plan_result_view(r) == association_plan(platform, result_view(exe), crate::config::opt_view(home)),
{
    match platform {
        Platform::MacOs => {
            return Err(String::from_str("Association is not automated on macOS. Use a packaged .app or set it manually."));
        },
        Platform::Other => {
            return Err(String::from_str("Linux association is not supported on this platform."));
        },
        _ => {},
    }
    let exe = match exe {
        Ok(x) => x,
        Err(e) => return Err(e),
    };
    match platform {
        Platform::Windows => {
            let mut command = String::from_str("\"");
            command.append(exe.as_str());
            command.append("\" --launch \"%1\"");
            Ok(AssociationPlan::Registry {
                extension_key: String::from_str(".uproject"),
                prog_id: String::from_str("UnrealProjectLauncher"),
                command_key: String::from_str("UnrealProjectLauncher\\shell\\open\\command"),
                command,
            })
        },
        _ => {
            let home = match home {
                Some(h) => h,
                None => return Err(String::from_str("HOME not set")),
            };
            proof {
                reveal_strlit(".local");
                reveal_strlit("share");
                reveal_strlit("applications");
                reveal_strlit("unreal-project-launcher.desktop");
                reveal_strlit(".");
                reveal_strlit("..");
            }
            let d1 = join_path(Platform::Linux, home.as_str(), plain(".local"));
            let d2 = join_path(Platform::Linux, d1.as_str(), plain("share"));
            let dir = join_path(Platform::Linux, d2.as_str(), plain("applications"));
            let file = join_path(Platform::Linux, dir.as_str(), plain("unreal-project-launcher.desktop"));
            let mut content = String::from_str("[Desktop Entry]\nType=Application\nName=Unreal Project Launcher\nExec=");
            content.append(exe.as_str());
            content.append(" --launch %f\nMimeType=application/x-unreal-project;\nNoDisplay=true\n");
            Ok(AssociationPlan::DesktopEntry {
                dir,
                file,
                file_name: String::from_str("unreal-project-launcher.desktop"),
                content,
                mime_type: String::from_str("application/x-unreal-project"),
            })
        },
    }
}

/// The outcome of the registry writes: the success message, or the error.
pub fn registry_outcome(written: Result<(), String>) -> (r: Result<String, String>)
    ensures
        result_view(r) == (match written {
            Ok(_) => Ok(associated_message()),
            Err(e) => Err(e@),
        }),
{
    match written {
        Ok(_) => Ok(String::from_str("Associated .uproject files for current user.")),
        Err(e) => Err(e),
    }
}

/// How running `xdg-mime` went.
pub enum CommandOutcome {
    /// It ran and exited successfully.
    Succeeded,
    /// It ran and exited unsuccessfully; the text describes the exit status.
    Failed(String),
    /// It could not be run; the text describes the error.
    NotRun(String),
}

/// The message for each outcome of `xdg-mime`.
pub open spec fn xdg_outcome_view(o: CommandOutcome) -> Result<Seq<char>, Seq<char>> {
    match o {
        CommandOutcome::Succeeded => Ok(associated_message()),
        CommandOutcome::Failed(s) => Err("xdg-mime failed with status "@ + s@),
        CommandOutcome::NotRun(e) => Err("xdg-mime failed: "@ + e@),
    }
}

/// The result of associating through `xdg-mime`.
pub fn xdg_mime_outcome(outcome: CommandOutcome) -> (r: Result<String, String>)
    ensures
        result_view(r) == xdg_outcome_view(outcome),
{
    match outcome {
        CommandOutcome::Succeeded => Ok(String::from_str("Associated .uproject files for current user.")),
        CommandOutcome::Failed(s) => {
            let mut m = String::from_str("xdg-mime failed with status ");
            m.append(s.as_str());
            Err(m)
        },
        CommandOutcome::NotRun(e) => {
            let mut m = String::from_str("xdg-mime failed: ");
            m.append(e.as_str());
            Err(m)
        },
    }
}

} // verus!
