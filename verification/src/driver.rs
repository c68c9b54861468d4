//! Decisions of the native build: which tool runs, with what environment,
//! and what the linker is told once the build has succeeded.
//!
//! Nothing here runs a process or reads the environment. The caller reads
//! what the decisions need, performs what they name, and reports back.

use vstd::prelude::*;
use vstd::string::*;
use crate::flags::{cc_flags, shared_flags};
use crate::text::{appended, chained, contains, has_substring, push_text};

verus! {

/// A library that the final link needs.
#[derive(Clone, Copy, Debug, PartialEq, Eq, Structural)]
pub enum Library {
    /// The engine, linked statically from the build output.
    JsStatic,
    /// Windows multimedia timers.
    Winmm,
    /// Windows process status.
    Psapi,
    /// The GNU C++ runtime.
    StdCxx,
    /// The LLVM C++ runtime.
    LibCxx,
}

/// The library is a C++ runtime.
pub open spec fn is_cxx_runtime(lib: Library) -> bool {
    lib == Library::StdCxx || lib == Library::LibCxx
}

/// The libraries to link for a target triple, in link order.
///
/// The engine comes first. A Windows target adds the two system libraries,
/// and the GNU runtime where the triple names the GNU toolchain. Apple and
/// FreeBSD targets take the LLVM runtime, every other target the GNU one.
pub open spec fn libraries_for(target: Seq<char>) -> Seq<Library> {
    seq![Library::JsStatic] + (if has_substring(target, "windows"@) {
        seq![Library::Winmm, Library::Psapi] + (if has_substring(target, "gnu"@) {
            seq![Library::StdCxx]
        } else {
            Seq::empty()
        })
    } else if has_substring(target, "apple"@) || has_substring(target, "freebsd"@) {
        seq![Library::LibCxx]
    } else {
        seq![Library::StdCxx]
    })
}

/// The line that tells the build system to link `lib`.
pub open spec fn library_line(lib: Library) -> Seq<char> {
    match lib {
        Library::JsStatic => "cargo:rustc-link-lib=static=js_static"@,
        Library::Winmm => "cargo:rustc-link-lib=winmm"@,
        Library::Psapi => "cargo:rustc-link-lib=psapi"@,
        Library::StdCxx => "cargo:rustc-link-lib=stdc++"@,
        Library::LibCxx => "cargo:rustc-link-lib=c++"@,
    }
}

/// Where the build leaves the engine's library, below `out_dir`.
pub open spec fn library_dir(out_dir: Seq<char>) -> Seq<char> {
    out_dir + "/js/src"@
}

/// Where the build installs the engine's headers, below `out_dir`.
pub open spec fn include_dir(out_dir: Seq<char>) -> Seq<char> {
    out_dir + "/dist/include"@
}

/// All lines printed after a successful build: where to search for native
/// libraries, the libraries in link order, and the output directory for the
/// packages that build on this one.
pub open spec fn directives_for(out_dir: Seq<char>, target: Seq<char>) -> Seq<Seq<char>> {
    seq!["cargo:rustc-link-search=native="@ + library_dir(out_dir)] + libraries_for(
        target,
    ).map_values(|lib: Library| library_line(lib)) + seq!["cargo:outdir="@ + out_dir]
}

/// The engine's library is first in link order, so it stands before every
/// C++ runtime.
pub proof fn lemma_engine_precedes_runtime(target: Seq<char>)
    ensures
        libraries_for(target)[0] == Library::JsStatic,
        forall|i: int|
            0 <= i < libraries_for(target).len() && is_cxx_runtime(
                #[trigger] libraries_for(target)[i],
            ) ==> i > 0,
{
}

/// The line links a C++ runtime.
pub open spec fn is_runtime_line(line: Seq<char>) -> bool {
    line == library_line(Library::StdCxx) || line == library_line(Library::LibCxx)
}

/// Among the printed lines the one that links the engine's library is the
/// second, and every line that links a C++ runtime comes after it.
pub proof fn lemma_engine_line_precedes_runtime_lines(out_dir: Seq<char>, target: Seq<char>)
    ensures
        directives_for(out_dir, target)[1] == library_line(Library::JsStatic),
        forall|i: int|
            0 <= i < directives_for(out_dir, target).len() && is_runtime_line(
                #[trigger] directives_for(out_dir, target)[i],
            ) ==> i > 1,
{
    reveal_strlit("cargo:rustc-link-search=native=");
    reveal_strlit("cargo:rustc-link-lib=static=js_static");
    reveal_strlit("cargo:rustc-link-lib=stdc++");
    reveal_strlit("cargo:rustc-link-lib=c++");
    let lines = directives_for(out_dir, target);
    let search = "cargo:rustc-link-search=native="@ + library_dir(out_dir);
    let engine = library_line(Library::JsStatic);
    assert(lines[0] == search);
    assert(lines[1] == engine);
    assert(search[17] == 's');
    assert(library_line(Library::StdCxx)[17] == 'l');
    assert(library_line(Library::LibCxx)[17] == 'l');
    assert(!is_runtime_line(search));
    assert(engine.len() == 37);
    assert(library_line(Library::StdCxx).len() == 27);
    assert(library_line(Library::LibCxx).len() == 24);
    assert(!is_runtime_line(engine));
}

/// What the platform of the target decides: a Windows target links both
/// system libraries, and the GNU runtime exactly when the triple names the
/// GNU toolchain; any other target links neither system library and exactly
/// one runtime, the LLVM one on Apple and FreeBSD targets.
pub proof fn lemma_platform_selection(target: Seq<char>)
    ensures
        has_substring(target, "windows"@) ==> {
            &&& libraries_for(target).contains(Library::Winmm)
            &&& libraries_for(target).contains(Library::Psapi)
            &&& !libraries_for(target).contains(Library::LibCxx)
            &&& libraries_for(target).contains(Library::StdCxx) == has_substring(target, "gnu"@)
        },
        !has_substring(target, "windows"@) ==> {
            &&& !libraries_for(target).contains(Library::Winmm)
            &&& !libraries_for(target).contains(Library::Psapi)
            &&& libraries_for(target).contains(Library::LibCxx) == (has_substring(
                target,
                "apple"@,
            ) || has_substring(target, "freebsd"@))
            &&& libraries_for(target).contains(Library::StdCxx) == !libraries_for(target).contains(
                Library::LibCxx,
            )
        },
{
    let libs = libraries_for(target);
    if has_substring(target, "windows"@) {
        assert(libs[1] == Library::Winmm);
        assert(libs[2] == Library::Psapi);
        if has_substring(target, "gnu"@) {
            assert(libs[3] == Library::StdCxx);
        }
    } else {
        assert(libs.len() == 2);
        if has_substring(target, "apple"@) || has_substring(target, "freebsd"@) {
            assert(libs[1] == Library::LibCxx);
        } else {
            assert(libs[1] == Library::StdCxx);
        }
    }
}

/// The libraries to link for a target triple, in link order.
pub fn link_libraries(target: &str) -> (libs: Vec<Library>)
    ensures
        libs@ == libraries_for(target@),
{
    let mut libs: Vec<Library> = Vec::new();
    libs.push(Library::JsStatic);
    if contains(target, "windows") {
        libs.push(Library::Winmm);
        libs.push(Library::Psapi);
        if contains(target, "gnu") {
            libs.push(Library::StdCxx);
        }
    } else if contains(target, "apple") || contains(target, "freebsd") {
        libs.push(Library::LibCxx);
    } else {
        libs.push(Library::StdCxx);
    }
    assert(libs@ =~= libraries_for(target@));
    libs
}

impl Library {
    /// The line that tells the build system to link this library.
    pub fn line(self) -> (text: &'static str)
        ensures
            text@ == library_line(self),
    {
        match self {
            Library::JsStatic => "cargo:rustc-link-lib=static=js_static",
            Library::Winmm => "cargo:rustc-link-lib=winmm",
            Library::Psapi => "cargo:rustc-link-lib=psapi",
            Library::StdCxx => "cargo:rustc-link-lib=stdc++",
            Library::LibCxx => "cargo:rustc-link-lib=c++",
        }
    }
}

/// All lines to print after a successful build into `out_dir` for `target`.
pub fn link_directives(out_dir: &str, target: &str) -> (lines: Vec<String>)
    ensures
        lines.deep_view() == directives_for(out_dir@, target@),
{
    let libs = link_libraries(target);
    let ghost wanted = libraries_for(target@).map_values(|lib: Library| library_line(lib));
    let mut lines: Vec<String> = Vec::new();
    let dir = appended(out_dir, "/js/src");
    let search = appended("cargo:rustc-link-search=native=", dir.as_str());
    push_text(&mut lines, search.as_str());
    let ghost first = lines.deep_view();
    let n: usize = libs.len();
    let mut k: usize = 0;
    while k < n
        invariant
            n == libs@.len(),
            k <= n,
            libs@ == libraries_for(target@),
            wanted == libraries_for(target@).map_values(|lib: Library| library_line(lib)),
            first == seq!["cargo:rustc-link-search=native="@ + library_dir(out_dir@)],
            lines.deep_view() == first + wanted.take(k as int),
        decreases n - k,
    {
        push_text(&mut lines, libs[k].line());
        proof {
            assert(wanted[k as int] == library_line(libs@[k as int]));
            assert((first + wanted.take(k as int)).push(wanted[k as int]) =~= first + wanted.take(
                k + 1,
            ));
        }
        k += 1;
    }
    let out = appended("cargo:outdir=", out_dir);
    push_text(&mut lines, out.as_str());
    proof {
        assert(wanted.take(n as int) =~= wanted);
        assert(lines.deep_view() =~= directives_for(out_dir@, target@));
    }
    lines
}

/// The name of the build tool: the configured one where there is one, else
/// `gmake` where it can be run, else `make`.
pub open spec fn make_for(configured: Option<Seq<char>>, gmake_runs: bool) -> Seq<char> {
    match configured {
        Some(tool) => tool,
        None => if gmake_runs {
            "gmake"@
        } else {
            "make"@
        },
    }
}

/// The name of the build tool. `configured` is the tool that the
/// configuration names, `gmake_runs` whether a trial run of `gmake` started.
pub fn find_make(configured: Option<String>, gmake_runs: bool) -> (tool: String)
    ensures
        tool@ == make_for(configured.deep_view(), gmake_runs),
{
    match configured {
        Some(tool) => tool,
        None => if gmake_runs {
            String::from_str("gmake")
        } else {
            String::from_str("make")
        },
    }
}

/// One run of the build tool.
#[derive(Clone, Debug)]
pub struct BuildCommand {
    /// The tool to run.
    pub program: String,
    /// Its arguments.
    pub args: Vec<String>,
    /// The directories in which the tool and what it calls are searched, for
    /// this run alone; `None` leaves the search path as it is.
    pub search_path: Option<Vec<String>>,
    /// Variables taken out of the tool's environment.
    pub removed_vars: Vec<String>,
    /// The value of `MAKEFLAGS` in the tool's environment, where one is set.
    pub makeflags: Option<String>,
}

/// A build command as contracts see it.
pub ghost struct BuildCommandView {
    pub program: Seq<char>,
    pub args: Seq<Seq<char>>,
    pub search_path: Option<Seq<Seq<char>>>,
    pub removed_vars: Seq<Seq<char>>,
    pub makeflags: Option<Seq<char>>,
}

impl DeepView for BuildCommand {
    type V = BuildCommandView;

    open spec fn deep_view(&self) -> BuildCommandView {
        BuildCommandView {
            program: self.program@,
            args: self.args.deep_view(),
            search_path: self.search_path.deep_view(),
            removed_vars: self.removed_vars.deep_view(),
            makeflags: self.makeflags.deep_view(),
        }
    }
}

impl View for BuildCommand {
    type V = BuildCommandView;

    open spec fn view(&self) -> BuildCommandView {
        self.deep_view()
    }
}

/// The run of the build tool.
///
/// Where a tools directory is configured, its entries go in front of the
/// search path and the tool is `mozmake`, whatever `make` says. The arguments
/// name the build description. On a Windows host the two variables with
/// flags for another dialect of make are removed; elsewhere the flags that
/// the build system hands down are passed on.
pub open spec fn build_command_for(
    make: Seq<char>,
    tools: Option<Seq<Seq<char>>>,
    path: Seq<Seq<char>>,
    windows: bool,
    handed_down: Option<Seq<char>>,
) -> BuildCommandView {
    BuildCommandView {
        program: if tools is Some {
            "mozmake"@
        } else {
            make
        },
        args: seq!["-R"@, "-f"@, "makefile.cargo"@],
        search_path: match tools {
            Some(entries) => Some(entries + path),
            None => None,
        },
        removed_vars: if windows {
            seq!["MAKEFLAGS"@, "MFLAGS"@]
        } else {
            Seq::empty()
        },
        makeflags: if windows {
            None
        } else {
            handed_down
        },
    }
}

/// The run of the build tool. `make` is the tool that `find_make` chose,
/// `tools` the entries of the configured tools directory list, `path` those
/// of the current search path, `windows` whether the host is Windows, and
/// `handed_down` the make flags that the build system hands down.
pub fn build_command(
    make: String,
    tools: Option<Vec<String>>,
    path: Vec<String>,
    windows: bool,
    handed_down: Option<String>,
) -> (command: BuildCommand)
    ensures
        command.deep_view() == build_command_for(
            make@,
            tools.deep_view(),
            path.deep_view(),
            windows,
            handed_down.deep_view(),
        ),
{
    let mut args: Vec<String> = Vec::new();
    push_text(&mut args, "-R");
    push_text(&mut args, "-f");
    push_text(&mut args, "makefile.cargo");
    assert(args.deep_view() =~= seq!["-R"@, "-f"@, "makefile.cargo"@]);
    let mut removed_vars: Vec<String> = Vec::new();
    if windows {
        push_text(&mut removed_vars, "MAKEFLAGS");
        push_text(&mut removed_vars, "MFLAGS");
        assert(removed_vars.deep_view() =~= seq!["MAKEFLAGS"@, "MFLAGS"@]);
    } else {
        assert(removed_vars.deep_view() =~= Seq::<Seq<char>>::empty());
    }
    let makeflags: Option<String> = if windows {
        None
    } else {
        handed_down
    };
    match tools {
        Some(entries) => BuildCommand {
            program: String::from_str("mozmake"),
            args,
            search_path: Some(chained(entries, path)),
            removed_vars,
            makeflags,
        },
        None => BuildCommand { program: make, args, search_path: None, removed_vars, makeflags },
    }
}

/// How the run of the build tool ended.
#[derive(Clone, Copy, Debug, PartialEq, Eq, Structural)]
pub enum BuildEvent {
    /// The tool could not be started.
    NotStarted,
    /// The tool ran and exited, with success or without.
    Exited { success: bool },
}

/// Why there is no engine to link. Neither is retried: without a finished
/// build there are no headers to generate bindings from.
#[derive(Clone, Copy, Debug, PartialEq, Eq, Structural)]
pub enum BuildError {
    /// The build tool could not be started.
    ToolMissing,
    /// The build tool exited with a failure.
    BuildFailed,
}

impl BuildError {
    /// What to tell the user.
    pub fn message(self) -> (text: &'static str)
        ensures
            text@ == match self {
                BuildError::ToolMissing => "Failed to run `make`"@,
                BuildError::BuildFailed => "the native build exited with a failure"@,
            },
    {
        match self {
            BuildError::ToolMissing => "Failed to run `make`",
            BuildError::BuildFailed => "the native build exited with a failure",
        }
    }
}

/// What follows the run of the build tool: the lines to print where it
/// exited with success, else the reason to give up.
pub fn after_build(event: BuildEvent, out_dir: &str, target: &str) -> (r: Result<
    Vec<String>,
    BuildError,
>)
    ensures
        match event {
            BuildEvent::Exited { success: true } => r matches Ok(lines) && lines.deep_view()
                == directives_for(out_dir@, target@),
            BuildEvent::Exited { success: false } => r == Err::<Vec<String>, BuildError>(
                BuildError::BuildFailed,
            ),
            BuildEvent::NotStarted => r == Err::<Vec<String>, BuildError>(BuildError::ToolMissing),
        },
{
    match event {
        BuildEvent::Exited { success } => if success {
            Ok(link_directives(out_dir, target))
        } else {
            Err(BuildError::BuildFailed)
        },
        BuildEvent::NotStarted => Err(BuildError::ToolMissing),
    }
}

/// The compilation of the hand-written glue into a static library.
#[derive(Clone, Debug)]
pub struct GlueUnit {
    /// Whether the source is compiled as C++.
    pub cpp: bool,
    /// The compiler flags, each used where the compiler supports it.
    pub flags: Vec<&'static str>,
    /// The source file.
    pub source: &'static str,
    /// Where the engine's installed headers are.
    pub include_dir: String,
    /// The name of the library to produce.
    pub library: &'static str,
}

impl GlueUnit {
    /// The unit compiles the one glue source as C++ against the headers
    /// installed below `out_dir`, with the shared flags, into `jsglue`.
    pub open spec fn is_for(&self, out_dir: Seq<char>, debug: bool, windows: bool) -> bool {
        &&& self.cpp
        &&& self.flags.deep_view() == shared_flags(debug, windows)
        &&& self.source@ == "src/jsglue.cpp"@
        &&& self.include_dir@ == include_dir(out_dir)
        &&& self.library@ == "jsglue"@
    }
}

/// The compilation of the glue against the headers installed below
/// `out_dir`.
pub fn glue_unit(out_dir: &str, debug: bool, windows: bool) -> (unit: GlueUnit)
    ensures
        unit.is_for(out_dir@, debug, windows),
{
    GlueUnit {
        cpp: true,
        flags: cc_flags(debug, windows),
        source: "src/jsglue.cpp",
        include_dir: appended(out_dir, "/dist/include"),
        library: "jsglue",
    }
}

} // verus!
