//! The compiler flags shared by the glue compiler and the binding generator.
//!
//! Both parse the same headers. Were they to see different flags, they would
//! disagree about the layout of the native types, so the list is computed in
//! one place, and what the generator adds for itself stands in front of it.

use vstd::prelude::*;
use vstd::string::*;

verus! {

/// The flags for the platform and the kind of build.
///
/// The define that tells the headers that bindings are being generated comes
/// first and is always there. A debug build adds the defines for garbage
/// collector stress testing and debug assertions. The rest picks the language
/// dialect and, off Windows, switches sized deallocation off and silences two
/// classes of warnings.
pub open spec fn shared_flags(debug: bool, windows: bool) -> Seq<Seq<char>> {
    seq!["-DRUST_BINDGEN"@] + (if debug {
        seq!["-DJS_GC_ZEAL"@, "-DDEBUG"@, "-DJS_DEBUG"@]
    } else {
        Seq::empty()
    }) + (if windows {
        seq!["-std=c++14"@]
    } else {
        seq![
            "-std=gnu++11"@,
            "-fno-sized-deallocation"@,
            "-Wno-unused-parameter"@,
            "-Wno-invalid-offsetof"@,
        ]
    })
}

/// What the generator's parser is told before the shared flags: where the
/// installed headers are, that the input is C++, and on Windows to accept the
/// dialect of the platform's compiler.
pub open spec fn generator_only_args(include_dir: Seq<char>, windows: bool) -> Seq<Seq<char>> {
    seq!["-I"@, include_dir, "-x"@, "c++"@] + (if windows {
        seq!["-fms-compatibility"@]
    } else {
        Seq::empty()
    })
}

/// All arguments of the generator's parser.
pub open spec fn generator_args(include_dir: Seq<char>, debug: bool, windows: bool) -> Seq<
    Seq<char>,
> {
    generator_only_args(include_dir, windows) + shared_flags(debug, windows)
}

/// The define that marks a bindings-generation pass is on every flag list.
pub proof fn lemma_marker_define_always_present(debug: bool, windows: bool)
    ensures
        shared_flags(debug, windows).len() > 0,
        shared_flags(debug, windows)[0] == "-DRUST_BINDGEN"@,
{
}

/// The generator's parser gets the glue compiler's flags, whole and in order,
/// behind its own arguments.
pub proof fn lemma_generator_shares_glue_flags(include_dir: Seq<char>, debug: bool, windows: bool)
    ensures
        generator_args(include_dir, debug, windows).skip(
            generator_only_args(include_dir, windows).len() as int,
        ) == shared_flags(debug, windows),
{
    let own = generator_only_args(include_dir, windows);
    let shared = shared_flags(debug, windows);
    assert((own + shared).skip(own.len() as int) =~= shared);
}

/// The flags for the platform and the kind of build.
pub fn cc_flags(debug: bool, windows: bool) -> (result: Vec<&'static str>)
    ensures
        result.deep_view() == shared_flags(debug, windows),
{
    let mut result: Vec<&'static str> = Vec::new();
    result.push("-DRUST_BINDGEN");
    if debug {
        result.push("-DJS_GC_ZEAL");
        result.push("-DDEBUG");
        result.push("-DJS_DEBUG");
    }
    if windows {
        result.push("-std=c++14");
    } else {
        result.push("-std=gnu++11");
        result.push("-fno-sized-deallocation");
        result.push("-Wno-unused-parameter");
        result.push("-Wno-invalid-offsetof");
    }
    assert(result.deep_view() =~= shared_flags(debug, windows));
    result
}

/// All arguments of the generator's parser, for headers installed under
/// `include_dir`.
pub fn clang_args(include_dir: &str, debug: bool, windows: bool) -> (result: Vec<String>)
    ensures
        result.deep_view() == generator_args(include_dir@, debug, windows),
{
    let mut result: Vec<String> = Vec::new();
    result.push(String::from_str("-I"));
    result.push(String::from_str(include_dir));
    result.push(String::from_str("-x"));
    result.push(String::from_str("c++"));
    if windows {
        result.push(String::from_str("-fms-compatibility"));
    }
    let shared = cc_flags(debug, windows);
    let n: usize = shared.len();
    let ghost own = result.deep_view();
    assert(own =~= generator_only_args(include_dir@, windows));
    let mut k: usize = 0;
    while k < n
        invariant
            n == shared@.len(),
            k <= n,
            shared.deep_view() == shared_flags(debug, windows),
            result.deep_view() == own + shared_flags(debug, windows).take(k as int),
        decreases n - k,
    {
        let ghost before = result.deep_view();
        result.push(String::from_str(shared[k]));
        proof {
            let flags = shared_flags(debug, windows);
            assert(flags[k as int] == shared@[k as int]@);
            assert(result.deep_view() =~= before.push(flags[k as int]));
            assert(before.push(flags[k as int]) =~= own + flags.take(k + 1));
        }
        k += 1;
    }
    assert(shared_flags(debug, windows).take(n as int) =~= shared_flags(debug, windows));
    result
}

} // verus!
