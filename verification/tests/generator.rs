use js_boundary::generator::{generator_config, CodegenConfig};
use js_boundary::rules::BindingRuleSet;

#[test]
fn generator_configuration() {
    let config = generator_config("/out", false, false);
    assert_eq!(config.header, "./src/jsglue.hpp");
    assert_eq!(config.rustified_enums, ".*");
    assert!(config.cxx_namespaces);
    assert_eq!(
        config.codegen,
        CodegenConfig {
            functions: true,
            types: true,
            vars: true,
            methods: false,
            constructors: false,
            destructors: false,
        }
    );
    assert_eq!(config.clang_args[..4], ["-I", "/out/dist/include", "-x", "c++"]);
    assert_eq!(config.clang_args[4], "-DRUST_BINDGEN");
    assert_eq!(config.output, "/out/jsapi.rs");
    assert_eq!(config.watched, "src/jsglue.hpp");
    assert_eq!(config.raw_lines, config.rules.sync_lines());
}

#[test]
fn sync_marker_lines() {
    assert_eq!(
        BindingRuleSet::engine().sync_lines(),
        vec![
            "unsafe impl Sync for root::JSClass {}",
            "unsafe impl Sync for root::JSFunctionSpec {}",
            "unsafe impl Sync for root::JSNativeWrapper {}",
            "unsafe impl Sync for root::JSPropertySpec {}",
            "unsafe impl Sync for root::JSTypedMethodJitInfo {}",
        ]
    );
}

#[test]
fn engine_rule_set() {
    let rules = BindingRuleSet::engine();
    assert_eq!(rules.whitelist_types, vec!["JS.*", "js::.*", "mozilla::.*"]);
    assert_eq!(
        rules.whitelist_functions,
        vec!["ExceptionStackOrNull", "glue::.*", "JS::.*", "js::.*", "JS_.*", ".*_TO_JSID"]
    );
    assert_eq!(rules.whitelist_vars.len(), 9);
    assert_eq!(rules.whitelist_vars[6], "JSID_VOID");
    assert_eq!(rules.opaque_types.len(), 12);
    assert_eq!(rules.opaque_types[3], "JS::Rooted<JS::Auto.*Vector.*>");
    assert_eq!(rules.blacklist_types, vec!["FILE", "JS::Heap", "JSJitInfo"]);
    assert_eq!(rules.substitutions.len(), 4);
    assert_eq!(rules.substitutions[2].module, "root::JS");
    assert_eq!(rules.substitutions[2].replaces, "Heap");
    assert_eq!(rules.substitutions[2].declaration, "pub type Heap<T> = ::jsgc::Heap<T>;");
}

#[test]
fn every_blacklisted_engine_type_has_a_substitution() {
    let rules = BindingRuleSet::engine();
    for qualified in &rules.blacklist_types {
        let mut parts: Vec<&str> = qualified.split("::").collect();
        let name = parts.pop().unwrap();
        let mut module = vec!["root"];
        module.extend(parts);
        let module = module.join("::");
        assert!(rules
            .substitutions
            .iter()
            .any(|s| s.module == module && s.replaces == name));
    }
}
