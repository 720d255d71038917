use unreal_plugin_launcher::association::{associate_uproject, registry_outcome, xdg_mime_outcome, AssociationPlan, CommandOutcome};
use unreal_plugin_launcher::config::Config;
use unreal_plugin_launcher::engine::EngineInfo;
use unreal_plugin_launcher::launch::{launch_arguments, launch_plan};
use unreal_plugin_launcher::paths::Platform;
use unreal_plugin_launcher::plugins::set_plugin_state;

fn s(v: &str) -> String {
    v.to_string()
}

#[test]
fn arguments_carry_overrides_as_flags() {
    let args = launch_arguments("/p/Game.uproject", &vec![s("A"), s("b")], &vec![s("C")]);
    assert_eq!(args, vec![s("/p/Game.uproject"), s("-EnablePlugins=A,b"), s("-DisablePlugins=C")]);
}

#[test]
fn arguments_without_overrides_are_the_project_alone() {
    assert_eq!(launch_arguments("Game.uproject", &vec![], &vec![]), vec![s("Game.uproject")]);
    assert_eq!(
        launch_arguments("Game.uproject", &vec![], &vec![s("X"), s("Y"), s("Z")]),
        vec![s("Game.uproject"), s("-DisablePlugins=X,Y,Z")]
    );
}

#[test]
fn plan_without_association_fails() {
    let config = Config::new();
    let err = launch_plan(None, &config, &vec![], false, Platform::Linux).err().unwrap();
    assert_eq!(err, "Could not read EngineAssociation from uproject.");
}

#[test]
fn plan_without_engine_fails() {
    let config = Config::new();
    let err = launch_plan(Some(s("5.3")), &config, &vec![], false, Platform::Linux).err().unwrap();
    assert_eq!(err, "Could not find Unreal Engine for 5.3.");
}

#[test]
fn plan_gives_editor_and_overrides() {
    let mut config = Config::new();
    set_plugin_state(&mut config, "5.3", "Water", "enable");
    set_plugin_state(&mut config, "5.3", "apex", "enable");
    set_plugin_state(&mut config, "5.3", "Niagara", "disable");
    let detected = vec![EngineInfo { id: s("5.3"), display_version: s("5.3.2"), path: s("/opt/UE_5.3") }];
    let plan = launch_plan(Some(s("5.3")), &config, &detected, false, Platform::Linux).ok().unwrap();
    assert_eq!(plan.editor, "/opt/UE_5.3/Engine/Binaries/Linux/UnrealEditor");
    assert_eq!(plan.enable, vec![s("apex"), s("Water")]);
    assert_eq!(plan.disable, vec![s("Niagara")]);
}

#[test]
fn association_on_macos_and_other_platforms() {
    assert_eq!(
        associate_uproject(Platform::MacOs, Ok(s("/bin/l")), None).err().unwrap(),
        "Association is not automated on macOS. Use a packaged .app or set it manually."
    );
    assert_eq!(
        associate_uproject(Platform::Other, Err(s("no exe")), None).err().unwrap(),
        "Linux association is not supported on this platform."
    );
}

#[test]
fn association_on_windows_writes_registry() {
    match associate_uproject(Platform::Windows, Ok(s("C:\\bin\\launcher.exe")), None) {
        Ok(AssociationPlan::Registry { extension_key, prog_id, command_key, command }) => {
            assert_eq!(extension_key, ".uproject");
            assert_eq!(prog_id, "UnrealProjectLauncher");
            assert_eq!(command_key, "UnrealProjectLauncher\\shell\\open\\command");
            assert_eq!(command, "\"C:\\bin\\launcher.exe\" --launch \"%1\"");
        },
        _ => panic!("expected a registry plan"),
    }
    assert_eq!(associate_uproject(Platform::Windows, Err(s("denied")), None).err().unwrap(), "denied");
}

#[test]
fn association_on_linux_writes_desktop_entry() {
    match associate_uproject(Platform::Linux, Ok(s("/usr/bin/launcher")), Some(s("/home/u"))) {
        Ok(AssociationPlan::DesktopEntry { dir, file, file_name, content, mime_type }) => {
            assert_eq!(dir, "/home/u/.local/share/applications");
            assert_eq!(file, "/home/u/.local/share/applications/unreal-project-launcher.desktop");
            assert_eq!(file_name, "unreal-project-launcher.desktop");
            assert_eq!(
                content,
                "[Desktop Entry]\nType=Application\nName=Unreal Project Launcher\nExec=/usr/bin/launcher --launch %f\nMimeType=application/x-unreal-project;\nNoDisplay=true\n"
            );
            assert_eq!(mime_type, "application/x-unreal-project");
        },
        _ => panic!("expected a desktop entry plan"),
    }
    assert_eq!(associate_uproject(Platform::Linux, Ok(s("/x")), None).err().unwrap(), "HOME not set");
    assert_eq!(associate_uproject(Platform::Linux, Err(s("no exe")), None).err().unwrap(), "no exe");
}

#[test]
fn association_outcomes() {
    assert_eq!(registry_outcome(Ok(())).ok().unwrap(), "Associated .uproject files for current user.");
    assert_eq!(registry_outcome(Err(s("access denied"))).err().unwrap(), "access denied");
    assert_eq!(xdg_mime_outcome(CommandOutcome::Succeeded).ok().unwrap(), "Associated .uproject files for current user.");
    assert_eq!(
        xdg_mime_outcome(CommandOutcome::Failed(s("exit status: 1"))).err().unwrap(),
        "xdg-mime failed with status exit status: 1"
    );
    assert_eq!(
        xdg_mime_outcome(CommandOutcome::NotRun(s("No such file or directory (os error 2)"))).err().unwrap(),
        "xdg-mime failed: No such file or directory (os error 2)"
    );
}
