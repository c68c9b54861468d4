//! What the binding generator is told: the header to start from, how enums,
//! namespaces and methods are treated, the arguments of its parser, the rule
//! set, and the lines that go into the output as they are.

use vstd::prelude::*;
use vstd::string::*;
use crate::driver::include_dir;
use crate::flags::{clang_args, generator_args};
use crate::pattern::{is_literal, lemma_literal_matches_itself_only, wildcard_at};
use crate::rules::{
    blacklisted, has_substitution, lacks_substitution, substitutes, substitutions_complete,
    BindingRuleSet, RuleSetView, Substitution, SubstitutionView,
};
use crate::symbols::{
    colon_free, lemma_qualified_name_is_unambiguous, plainly_named, qualified_name, root_module,
    separator, SymbolView,
};
use crate::text::{appended, joined, push_text};

verus! {

/// Which kinds of items the generator writes.
#[derive(Clone, Copy, Debug, PartialEq, Eq, Structural)]
pub struct CodegenConfig {
    pub functions: bool,
    pub types: bool,
    pub vars: bool,
    pub methods: bool,
    pub constructors: bool,
    pub destructors: bool,
}

/// Free functions, types and variables are written. Methods, constructors
/// and destructors are not: most are defined inline in the headers and have
/// no symbol to link to, and keeping their bodies would bloat the engine's
/// library beyond use.
pub open spec fn free_items_only() -> CodegenConfig {
    CodegenConfig {
        functions: true,
        types: true,
        vars: true,
        methods: false,
        constructors: false,
        destructors: false,
    }
}

/// The rule set for the engine's headers.
pub open spec fn engine_rules() -> RuleSetView {
    RuleSetView {
        whitelist_types: seq!["JS.*"@, "js::.*"@, "mozilla::.*"@],
        whitelist_functions: seq![
            "ExceptionStackOrNull"@,
            "glue::.*"@,
            "JS::.*"@,
            "js::.*"@,
            "JS_.*"@,
            ".*_TO_JSID"@,
        ],
        whitelist_vars: seq![
            "JS::NullHandleValue"@,
            "JS::TrueHandleValue"@,
            "JS::UndefinedHandleValue"@,
            "JSCLASS_.*"@,
            "JSFUN_.*"@,
            "JSITER_.*"@,
            "JSID_VOID"@,
            "JSPROP_.*"@,
            "JS_.*"@,
        ],
        opaque_types: seq![
            "JS::Auto.*Impl"@,
            "JS::Auto.*Vector.*"@,
            "JS::ReadOnlyCompileOptions"@,
            "JS::Rooted<JS::Auto.*Vector.*>"@,
            "JS::detail::CallArgsBase.*"@,
            "js::HashMap.*"@,
            "js::detail::UniqueSelector.*"@,
            "js::detail::HashTable_Ptr.*"@,
            "js::detail::HashTable_Range.*"@,
            "mozilla::BufferList"@,
            "mozilla::Maybe.*"@,
            "mozilla::UniquePtr.*"@,
        ],
        blacklist_types: seq!["FILE"@, "JS::Heap"@, "JSJitInfo"@],
        substitutions: seq![
            SubstitutionView {
                module: "root"@,
                replaces: "FILE"@,
                declaration: "pub type FILE = ::libc::FILE;"@,
            },
            SubstitutionView {
                module: "root"@,
                replaces: "JSJitInfo"@,
                declaration: "pub type JSJitInfo = ::jsjit::JSJitInfo;"@,
            },
            SubstitutionView {
                module: "root::JS"@,
                replaces: "Heap"@,
                declaration: "pub type Heap<T> = ::jsgc::Heap<T>;"@,
            },
            SubstitutionView {
                module: "root::JS"@,
                replaces: "AutoGCRooterTag"@,
                declaration: "pub type AutoGCRooterTag = AutoGCRooter__bindgen_ty_1;"@,
            },
        ],
        sync_types: seq![
            "JSClass"@,
            "JSFunctionSpec"@,
            "JSNativeWrapper"@,
            "JSPropertySpec"@,
            "JSTypedMethodJitInfo"@,
        ],
    }
}

/// The engine's rule set registers a substitution for every type that its
/// blacklist names: whichever plainly named type a blacklist pattern
/// matches, a substitution stands ready in the type's own module.
pub proof fn lemma_engine_blacklist_is_covered(sym: SymbolView)
    requires
        plainly_named(sym),
        blacklisted(engine_rules(), sym),
    ensures
        has_substitution(engine_rules(), sym),
{
    let rules = engine_rules();
    let name = qualified_name(sym);
    let sep = separator();
    reveal_strlit("FILE");
    reveal_strlit("JS::Heap");
    reveal_strlit("JSJitInfo");
    reveal_strlit("Heap");
    reveal_strlit("root");
    reveal_strlit("root::JS");
    reveal_with_fuel(joined, 3);
    let k = choose|k: int|
        0 <= k < rules.blacklist_types.len() && crate::pattern::matches(
            #[trigger] rules.blacklist_types[k],
            name,
        );
    let pattern = rules.blacklist_types[k];
    assert(is_literal(pattern)) by {
        assert forall|i: int| !wildcard_at(pattern, i) by {
            if 0 <= i && i + 1 < pattern.len() {
                assert(pattern[i] != '.');
            }
        }
    }
    lemma_literal_matches_itself_only(pattern, name);
    let at_root = Seq::<Seq<char>>::empty();
    let in_js = seq![seq!['J', 'S']];
    let twin = if k == 0 {
        SymbolView { namespaces: at_root, name: "FILE"@, ..sym }
    } else if k == 1 {
        SymbolView { namespaces: in_js, name: "Heap"@, ..sym }
    } else {
        SymbolView { namespaces: at_root, name: "JSJitInfo"@, ..sym }
    };
    let parts = twin.namespaces.push(twin.name);
    assert(plainly_named(twin)) by {
        assert forall|n: int| 0 <= n < parts.len() implies colon_free(
            #[trigger] parts[n],
        ) by {
            let part = parts[n];
            assert forall|c: int| 0 <= c < part.len() implies part[c] != ':' by {}
        }
    }
    assert(qualified_name(twin) == name) by {
        if k == 1 {
            assert(parts.drop_last() =~= in_js);
            assert(joined(in_js, sep) == in_js[0]);
            assert(in_js[0] + sep + "Heap"@ =~= "JS::Heap"@);
        } else {
            assert(parts.len() == 1);
        }
    }
    lemma_qualified_name_is_unambiguous(sym, twin);
    let place = seq![root_module()] + twin.namespaces;
    if k == 1 {
        assert(place.drop_last() =~= seq![root_module()]);
        assert(place.last() == in_js[0]);
        assert(root_module() + sep + in_js[0] =~= "root::JS"@);
        assert(substitutes(rules.substitutions[2], sym));
    } else {
        assert(place =~= seq![root_module()]);
        assert(root_module() =~= "root"@);
        if k == 0 {
            assert(substitutes(rules.substitutions[0], sym));
        } else {
            assert(substitutes(rules.substitutions[1], sym));
        }
    }
}

/// Under the engine's rule set evaluation never fails for want of a
/// substitution, whatever plainly named symbols the headers hold.
pub proof fn lemma_engine_rules_are_complete(graph: Seq<SymbolView>)
    requires
        forall|i: int| 0 <= i < graph.len() ==> plainly_named(#[trigger] graph[i]),
    ensures
        substitutions_complete(engine_rules(), graph),
{
    assert forall|i: int| 0 <= i < graph.len() implies !lacks_substitution(
        engine_rules(),
        graph,
        i,
    ) by {
        if blacklisted(engine_rules(), graph[i]) {
            lemma_engine_blacklist_is_covered(graph[i]);
        }
    }
}

/// The line that asserts, for the generated type `ty` of the root module,
/// that sharing it between threads is safe.
pub open spec fn sync_marker(ty: Seq<char>) -> Seq<char> {
    "unsafe impl Sync for root::"@ + ty + " {}"@
}

/// One marker line for each type of `types`, in their order.
pub open spec fn sync_markers(types: Seq<Seq<char>>) -> Seq<Seq<char>> {
    types.map_values(|ty: Seq<char>| sync_marker(ty))
}

/// Adds a substitution to `list`.
fn push_substitution(
    list: &mut Vec<Substitution>,
    module: &str,
    replaces: &str,
    declaration: &str,
)
    ensures
        final(list).deep_view() == old(list).deep_view().push(
            SubstitutionView { module: module@, replaces: replaces@, declaration: declaration@ },
        ),
{
    let ghost before = *list;
    list.push(
        Substitution {
            module: String::from_str(module),
            replaces: String::from_str(replaces),
            declaration: String::from_str(declaration),
        },
    );
    proof {
        let wanted = before.deep_view().push(
            SubstitutionView { module: module@, replaces: replaces@, declaration: declaration@ },
        );
        assert forall|t: int| 0 <= t < list@.len() implies list.deep_view()[t] == wanted[t] by {
            if t < before@.len() {
                assert(list@[t] == before@[t]);
                assert(before.deep_view()[t] == before@[t].deep_view());
            }
        }
        assert(list.deep_view() =~= wanted);
    }
}

impl BindingRuleSet {
    /// The rule set for the engine's headers.
    pub fn engine() -> (rules: BindingRuleSet)
        ensures
            rules.deep_view() == engine_rules(),
    {
        let mut whitelist_types: Vec<String> = Vec::new();
        push_text(&mut whitelist_types, "JS.*");
        push_text(&mut whitelist_types, "js::.*");
        push_text(&mut whitelist_types, "mozilla::.*");
        assert(whitelist_types.deep_view() =~= engine_rules().whitelist_types);

        let mut whitelist_functions: Vec<String> = Vec::new();
        push_text(&mut whitelist_functions, "ExceptionStackOrNull");
        push_text(&mut whitelist_functions, "glue::.*");
        push_text(&mut whitelist_functions, "JS::.*");
        push_text(&mut whitelist_functions, "js::.*");
        push_text(&mut whitelist_functions, "JS_.*");
        push_text(&mut whitelist_functions, ".*_TO_JSID");
        assert(whitelist_functions.deep_view() =~= engine_rules().whitelist_functions);

        let mut whitelist_vars: Vec<String> = Vec::new();
        push_text(&mut whitelist_vars, "JS::NullHandleValue");
        push_text(&mut whitelist_vars, "JS::TrueHandleValue");
        push_text(&mut whitelist_vars, "JS::UndefinedHandleValue");
        push_text(&mut whitelist_vars, "JSCLASS_.*");
        push_text(&mut whitelist_vars, "JSFUN_.*");
        push_text(&mut whitelist_vars, "JSITER_.*");
        push_text(&mut whitelist_vars, "JSID_VOID");
        push_text(&mut whitelist_vars, "JSPROP_.*");
        push_text(&mut whitelist_vars, "JS_.*");
        assert(whitelist_vars.deep_view() =~= engine_rules().whitelist_vars);

        let mut opaque_types: Vec<String> = Vec::new();
        push_text(&mut opaque_types, "JS::Auto.*Impl");
        push_text(&mut opaque_types, "JS::Auto.*Vector.*");
        push_text(&mut opaque_types, "JS::ReadOnlyCompileOptions");
        push_text(&mut opaque_types, "JS::Rooted<JS::Auto.*Vector.*>");
        push_text(&mut opaque_types, "JS::detail::CallArgsBase.*");
        push_text(&mut opaque_types, "js::HashMap.*");
        push_text(&mut opaque_types, "js::detail::UniqueSelector.*");
        push_text(&mut opaque_types, "js::detail::HashTable_Ptr.*");
        push_text(&mut opaque_types, "js::detail::HashTable_Range.*");
        push_text(&mut opaque_types, "mozilla::BufferList");
        push_text(&mut opaque_types, "mozilla::Maybe.*");
        push_text(&mut opaque_types, "mozilla::UniquePtr.*");
        assert(opaque_types.deep_view() =~= engine_rules().opaque_types);

        let mut blacklist_types: Vec<String> = Vec::new();
        push_text(&mut blacklist_types, "FILE");
        push_text(&mut blacklist_types, "JS::Heap");
        push_text(&mut blacklist_types, "JSJitInfo");
        assert(blacklist_types.deep_view() =~= engine_rules().blacklist_types);

        let mut substitutions: Vec<Substitution> = Vec::new();
        assert(substitutions.deep_view() =~= Seq::<SubstitutionView>::empty());
        push_substitution(&mut substitutions, "root", "FILE", "pub type FILE = ::libc::FILE;");
        push_substitution(
            &mut substitutions,
            "root",
            "JSJitInfo",
            "pub type JSJitInfo = ::jsjit::JSJitInfo;",
        );
        push_substitution(
            &mut substitutions,
            "root::JS",
            "Heap",
            "pub type Heap<T> = ::jsgc::Heap<T>;",
        );
        push_substitution(
            &mut substitutions,
            "root::JS",
            "AutoGCRooterTag",
            "pub type AutoGCRooterTag = AutoGCRooter__bindgen_ty_1;",
        );
        assert(substitutions.deep_view() =~= engine_rules().substitutions);

        let mut sync_types: Vec<String> = Vec::new();
        push_text(&mut sync_types, "JSClass");
        push_text(&mut sync_types, "JSFunctionSpec");
        push_text(&mut sync_types, "JSNativeWrapper");
        push_text(&mut sync_types, "JSPropertySpec");
        push_text(&mut sync_types, "JSTypedMethodJitInfo");
        assert(sync_types.deep_view() =~= engine_rules().sync_types);

        BindingRuleSet {
            whitelist_types,
            whitelist_functions,
            whitelist_vars,
            opaque_types,
            blacklist_types,
            substitutions,
            sync_types,
        }
    }

    /// The lines that assert thread safety, one for each sync-marker type.
    pub fn sync_lines(&self) -> (lines: Vec<String>)
        ensures
            lines.deep_view() == sync_markers(self.deep_view().sync_types),
    {
        let ghost wanted = sync_markers(self.sync_types.deep_view());
        let mut lines: Vec<String> = Vec::new();
        let n: usize = self.sync_types.len();
        let mut k: usize = 0;
        assert(lines.deep_view() =~= wanted.take(0));
        while k < n
            invariant
                n == self.sync_types@.len(),
                k <= n,
                wanted == sync_markers(self.sync_types.deep_view()),
                lines.deep_view() == wanted.take(k as int),
            decreases n - k,
        {
            let head = appended("unsafe impl Sync for root::", self.sync_types[k].as_str());
            let line = appended(head.as_str(), " {}");
            push_text(&mut lines, line.as_str());
            proof {
                assert(self.sync_types.deep_view()[k as int] == self.sync_types@[k as int]@);
                assert(wanted[k as int] == sync_marker(self.sync_types@[k as int]@));
                assert(wanted.take(k as int).push(wanted[k as int]) =~= wanted.take(k + 1));
            }
            k += 1;
        }
        assert(wanted.take(n as int) =~= wanted);
        lines
    }
}

/// Everything the binding generator is told.
#[derive(Clone, Debug)]
pub struct GeneratorConfig {
    /// The one header that pulls in all that is to be bound.
    pub header: &'static str,
    /// The pattern of the enums that become closed variant types.
    pub rustified_enums: &'static str,
    /// Whether native namespaces become nested modules.
    pub cxx_namespaces: bool,
    /// Which kinds of items are written.
    pub codegen: CodegenConfig,
    /// The arguments of the generator's parser.
    pub clang_args: Vec<String>,
    /// Lines for the top of the output: the thread-safety assertions.
    pub raw_lines: Vec<String>,
    /// What gets bindings, and how.
    pub rules: BindingRuleSet,
    /// The file that receives the generated module.
    pub output: String,
    /// The file whose change asks for a new run.
    pub watched: &'static str,
}

impl GeneratorConfig {
    /// The configuration generates bindings for the engine built into
    /// `out_dir`: from the glue header, every enum as a closed variant type,
    /// namespaces mirrored as modules, free items only, the parser's view of
    /// the headers the same as the glue compiler's, and the output in
    /// `jsapi.rs` below `out_dir`.
    pub open spec fn is_for(&self, out_dir: Seq<char>, debug: bool, windows: bool) -> bool {
        &&& self.header@ == "./src/jsglue.hpp"@
        &&& self.rustified_enums@ == ".*"@
        &&& self.cxx_namespaces
        &&& self.codegen == free_items_only()
        &&& self.clang_args.deep_view() == generator_args(include_dir(out_dir), debug, windows)
        &&& self.raw_lines.deep_view() == sync_markers(engine_rules().sync_types)
        &&& self.rules.deep_view() == engine_rules()
        &&& self.output@ == out_dir + "/jsapi.rs"@
        &&& self.watched@ == "src/jsglue.hpp"@
    }
}

/// The configuration of the generator for the engine built into `out_dir`.
pub fn generator_config(out_dir: &str, debug: bool, windows: bool) -> (config: GeneratorConfig)
    ensures
        config.is_for(out_dir@, debug, windows),
{
    let rules = BindingRuleSet::engine();
    let raw_lines = rules.sync_lines();
    let headers = appended(out_dir, "/dist/include");
    GeneratorConfig {
        header: "./src/jsglue.hpp",
        rustified_enums: ".*",
        cxx_namespaces: true,
        codegen: CodegenConfig {
            functions: true,
            types: true,
            vars: true,
            methods: false,
            constructors: false,
            destructors: false,
        },
        clang_args: clang_args(headers.as_str(), debug, windows),
        raw_lines,
        rules,
        output: appended(out_dir, "/jsapi.rs"),
        watched: "src/jsglue.hpp",
    }
}

} // verus!
