use js_boundary::driver::{
    after_build, build_command, find_make, link_directives, link_libraries, BuildError, BuildEvent,
    Library,
};

fn strings(items: &[&str]) -> Vec<String> {
    items.iter().map(|s| s.to_string()).collect()
}

#[test]
fn windows_gnu_links_system_libraries_and_gnu_runtime() {
    let lines = link_directives("/out", "x86_64-pc-windows-gnu");
    assert_eq!(
        lines,
        vec![
            "cargo:rustc-link-search=native=/out/js/src",
            "cargo:rustc-link-lib=static=js_static",
            "cargo:rustc-link-lib=winmm",
            "cargo:rustc-link-lib=psapi",
            "cargo:rustc-link-lib=stdc++",
            "cargo:outdir=/out",
        ]
    );
}

#[test]
fn apple_links_llvm_runtime_and_no_windows_libraries() {
    let lines = link_directives("/out", "x86_64-apple-darwin");
    assert_eq!(
        lines,
        vec![
            "cargo:rustc-link-search=native=/out/js/src",
            "cargo:rustc-link-lib=static=js_static",
            "cargo:rustc-link-lib=c++",
            "cargo:outdir=/out",
        ]
    );
    assert!(!lines.iter().any(|l| l.contains("winmm") || l.contains("psapi")));
}

#[test]
fn windows_msvc_links_no_cxx_runtime() {
    assert_eq!(
        link_libraries("x86_64-pc-windows-msvc"),
        vec![Library::JsStatic, Library::Winmm, Library::Psapi]
    );
}

#[test]
fn freebsd_links_llvm_runtime() {
    assert_eq!(
        link_libraries("x86_64-unknown-freebsd"),
        vec![Library::JsStatic, Library::LibCxx]
    );
}

#[test]
fn linux_links_gnu_runtime() {
    assert_eq!(
        link_libraries("x86_64-unknown-linux-gnu"),
        vec![Library::JsStatic, Library::StdCxx]
    );
    assert_eq!(
        link_libraries("aarch64-unknown-linux-musl"),
        vec![Library::JsStatic, Library::StdCxx]
    );
}

#[test]
fn engine_library_precedes_cxx_runtime() {
    for target in [
        "x86_64-pc-windows-gnu",
        "x86_64-pc-windows-msvc",
        "x86_64-apple-darwin",
        "x86_64-unknown-freebsd",
        "x86_64-unknown-linux-gnu",
        "",
    ] {
        let libs = link_libraries(target);
        assert_eq!(libs[0], Library::JsStatic);
        let lines = link_directives("o", target);
        let engine = lines
            .iter()
            .position(|l| l == "cargo:rustc-link-lib=static=js_static")
            .unwrap();
        for (at, line) in lines.iter().enumerate() {
            if line == "cargo:rustc-link-lib=stdc++" || line == "cargo:rustc-link-lib=c++" {
                assert!(engine < at);
            }
        }
    }
}

#[test]
fn library_lines() {
    assert_eq!(Library::JsStatic.line(), "cargo:rustc-link-lib=static=js_static");
    assert_eq!(Library::Winmm.line(), "cargo:rustc-link-lib=winmm");
    assert_eq!(Library::Psapi.line(), "cargo:rustc-link-lib=psapi");
    assert_eq!(Library::StdCxx.line(), "cargo:rustc-link-lib=stdc++");
    assert_eq!(Library::LibCxx.line(), "cargo:rustc-link-lib=c++");
}

#[test]
fn configured_make_wins() {
    assert_eq!(find_make(Some("/usr/local/bin/mymake".to_string()), true), "/usr/local/bin/mymake");
    assert_eq!(find_make(Some("mymake".to_string()), false), "mymake");
}

#[test]
fn gmake_is_preferred_over_make() {
    assert_eq!(find_make(None, true), "gmake");
    assert_eq!(find_make(None, false), "make");
}

#[test]
fn plain_build_command() {
    let command = build_command(
        "gmake".to_string(),
        None,
        strings(&["/usr/bin", "/bin"]),
        false,
        Some("-j8".to_string()),
    );
    assert_eq!(command.program, "gmake");
    assert_eq!(command.args, vec!["-R", "-f", "makefile.cargo"]);
    assert_eq!(command.search_path, None);
    assert!(command.removed_vars.is_empty());
    assert_eq!(command.makeflags, Some("-j8".to_string()));
}

#[test]
fn tools_directory_switches_tool_and_leads_search_path() {
    let command = build_command(
        "make".to_string(),
        Some(strings(&["C:/moztools/bin", "C:/moztools/msys"])),
        strings(&["C:/windows"]),
        true,
        Some("-j8".to_string()),
    );
    assert_eq!(command.program, "mozmake");
    assert_eq!(command.args, vec!["-R", "-f", "makefile.cargo"]);
    assert_eq!(
        command.search_path,
        Some(strings(&["C:/moztools/bin", "C:/moztools/msys", "C:/windows"]))
    );
    assert_eq!(command.removed_vars, vec!["MAKEFLAGS", "MFLAGS"]);
    assert_eq!(command.makeflags, None);
}

#[test]
fn no_make_flags_handed_down() {
    let command = build_command("make".to_string(), None, Vec::new(), false, None);
    assert_eq!(command.makeflags, None);
    assert!(command.removed_vars.is_empty());
}

#[test]
fn successful_build_yields_directives() {
    let r = after_build(BuildEvent::Exited { success: true }, "/o", "x86_64-unknown-linux-gnu");
    assert_eq!(r, Ok(link_directives("/o", "x86_64-unknown-linux-gnu")));
}

#[test]
fn failed_build_is_fatal() {
    let r = after_build(BuildEvent::Exited { success: false }, "/o", "x86_64-unknown-linux-gnu");
    assert_eq!(r, Err(BuildError::BuildFailed));
}

#[test]
fn missing_tool_is_fatal() {
    let r = after_build(BuildEvent::NotStarted, "/o", "x86_64-unknown-linux-gnu");
    assert_eq!(r, Err(BuildError::ToolMissing));
    assert_eq!(BuildError::ToolMissing.message(), "Failed to run `make`");
    assert_ne!(BuildError::BuildFailed.message(), BuildError::ToolMissing.message());
}
