use rpd::cmd::{DEFAULT_OUT_FILE, DEFAULT_ROOT_DIR};
use rpd::{CompileCmd, WatchCmd};

#[test]
fn a_compile_without_arguments_packs_the_current_directory() {
    let cmd = CompileCmd::default();
    assert_eq!(cmd.root_dir, ".");
    assert_eq!(cmd.out_file, "pack.zip");
    assert!(!cmd.validate);
    assert_eq!(DEFAULT_ROOT_DIR, ".");
    assert_eq!(DEFAULT_OUT_FILE, "pack.zip");
}

#[test]
fn a_watch_without_arguments_watches_the_current_directory() {
    let cmd = WatchCmd::default();
    assert_eq!(cmd.root_dir, ".");
    assert_eq!(cmd.out_file, "pack.zip");
    assert!(!cmd.validate);
}

#[test]
fn a_watch_compiles_with_its_own_settings() {
    let watch = WatchCmd {
        root_dir: "packs/src".to_string(),
        out_file: "out/pack.zip".to_string(),
        validate: true,
    };
    assert_eq!(
        watch.compile_cmd(),
        CompileCmd {
            root_dir: "packs/src".to_string(),
            out_file: "out/pack.zip".to_string(),
            validate: true
        }
    );
    assert_eq!(WatchCmd::default().compile_cmd(), CompileCmd::default());
}
