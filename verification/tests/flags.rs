use js_boundary::driver::glue_unit;
use js_boundary::flags::{cc_flags, clang_args};

#[test]
fn release_flags_off_windows() {
    assert_eq!(
        cc_flags(false, false),
        vec![
            "-DRUST_BINDGEN",
            "-std=gnu++11",
            "-fno-sized-deallocation",
            "-Wno-unused-parameter",
            "-Wno-invalid-offsetof",
        ]
    );
}

#[test]
fn release_flags_on_windows() {
    assert_eq!(cc_flags(false, true), vec!["-DRUST_BINDGEN", "-std=c++14"]);
}

#[test]
fn debug_flags_off_windows() {
    assert_eq!(
        cc_flags(true, false),
        vec![
            "-DRUST_BINDGEN",
            "-DJS_GC_ZEAL",
            "-DDEBUG",
            "-DJS_DEBUG",
            "-std=gnu++11",
            "-fno-sized-deallocation",
            "-Wno-unused-parameter",
            "-Wno-invalid-offsetof",
        ]
    );
}

#[test]
fn debug_flags_on_windows() {
    assert_eq!(
        cc_flags(true, true),
        vec!["-DRUST_BINDGEN", "-DJS_GC_ZEAL", "-DDEBUG", "-DJS_DEBUG", "-std=c++14"]
    );
}

#[test]
fn marker_define_is_always_first() {
    for debug in [false, true] {
        for windows in [false, true] {
            assert_eq!(cc_flags(debug, windows)[0], "-DRUST_BINDGEN");
        }
    }
}

#[test]
fn parser_arguments_off_windows() {
    assert_eq!(
        clang_args("/out/dist/include", false, false),
        vec![
            "-I",
            "/out/dist/include",
            "-x",
            "c++",
            "-DRUST_BINDGEN",
            "-std=gnu++11",
            "-fno-sized-deallocation",
            "-Wno-unused-parameter",
            "-Wno-invalid-offsetof",
        ]
    );
}

#[test]
fn parser_arguments_on_windows() {
    assert_eq!(
        clang_args("C:/out/dist/include", true, true),
        vec![
            "-I",
            "C:/out/dist/include",
            "-x",
            "c++",
            "-fms-compatibility",
            "-DRUST_BINDGEN",
            "-DJS_GC_ZEAL",
            "-DDEBUG",
            "-DJS_DEBUG",
            "-std=c++14",
        ]
    );
}

#[test]
fn parser_and_glue_compiler_share_flags() {
    for debug in [false, true] {
        for windows in [false, true] {
            let shared = cc_flags(debug, windows);
            let args = clang_args("inc", debug, windows);
            let own = if windows { 5 } else { 4 };
            assert_eq!(args.len(), own + shared.len());
            assert_eq!(&args[own..], &shared[..]);
            assert_eq!(glue_unit("out", debug, windows).flags, shared);
        }
    }
}

#[test]
fn glue_is_compiled_as_cpp_against_installed_headers() {
    let unit = glue_unit("/tmp/out", false, false);
    assert!(unit.cpp);
    assert_eq!(unit.source, "src/jsglue.cpp");
    assert_eq!(unit.include_dir, "/tmp/out/dist/include");
    assert_eq!(unit.library, "jsglue");
}
