use js_boundary::rules::{BindingRuleSet, Emission, MissingSubstitution, Substitution};
use js_boundary::symbols::{
    first_root_reaching, module_of, qualified_chars, reach, Symbol, SymbolKind,
};

fn strings(items: &[&str]) -> Vec<String> {
    items.iter().map(|s| s.to_string()).collect()
}

fn symbol(kind: SymbolKind, namespaces: &[&str], name: &str, uses: &[usize]) -> Symbol {
    Symbol {
        kind,
        namespaces: strings(namespaces),
        name: name.to_string(),
        uses: uses.to_vec(),
        size: 0,
        align: 0,
    }
}

fn sized(namespaces: &[&str], name: &str, uses: &[usize], size: usize, align: usize) -> Symbol {
    Symbol {
        kind: SymbolKind::Type,
        namespaces: strings(namespaces),
        name: name.to_string(),
        uses: uses.to_vec(),
        size,
        align,
    }
}

fn empty_rules() -> BindingRuleSet {
    BindingRuleSet {
        whitelist_types: Vec::new(),
        whitelist_functions: Vec::new(),
        whitelist_vars: Vec::new(),
        opaque_types: Vec::new(),
        blacklist_types: Vec::new(),
        substitutions: Vec::new(),
        sync_types: Vec::new(),
    }
}

fn sample_graph() -> Vec<Symbol> {
    vec![
        // 0: whitelisted function, mentions 1 and 4
        symbol(SymbolKind::Function, &[], "JS_NewObject", &[1, 4]),
        // 1: type pulled in by 0, mentions 2
        sized(&[], "Options", &[2], 16, 8),
        // 2: opaque type pulled in through 1
        sized(&["mozilla"], "Maybe", &[3], 24, 8),
        // 3: type pulled in through the opaque one
        sized(&["detail"], "Storage", &[], 8, 8),
        // 4: blacklisted type with a substitution
        sized(&[], "FILE", &[], 216, 8),
        // 5: type that nothing asks for
        sized(&["other"], "Unused", &[1], 4, 4),
        // 6: function that no whitelist names
        symbol(SymbolKind::Function, &["other"], "helper", &[5]),
        // 7: whitelisted variable
        symbol(SymbolKind::Variable, &["JS"], "NullHandleValue", &[8]),
        // 8: blacklisted type below a namespace
        sized(&["JS"], "Heap", &[], 8, 8),
    ]
}

#[test]
fn qualified_names_and_modules() {
    let heap = sized(&["JS"], "Heap", &[], 8, 8);
    assert_eq!(qualified_chars(&heap).iter().collect::<String>(), "JS::Heap");
    assert_eq!(module_of(&heap), "root::JS");
    let file = sized(&[], "FILE", &[], 1, 1);
    assert_eq!(qualified_chars(&file).iter().collect::<String>(), "FILE");
    assert_eq!(module_of(&file), "root");
    let deep = sized(&["js", "detail"], "UniqueSelector", &[], 1, 1);
    assert_eq!(qualified_chars(&deep).iter().collect::<String>(), "js::detail::UniqueSelector");
    assert_eq!(module_of(&deep), "root::js::detail");
}

#[test]
fn reach_follows_mentions_of_types_only() {
    let graph = sample_graph();
    let mut roots = vec![false; graph.len()];
    roots[6] = true;
    // helper -> Unused -> Options -> Maybe -> Storage
    assert_eq!(
        reach(&graph, &roots),
        vec![false, true, true, true, false, true, true, false, false]
    );
}

#[test]
fn reach_accepts_flags_of_any_length() {
    let graph = sample_graph();
    assert_eq!(reach(&graph, &Vec::new()), vec![false; 9]);
    assert_eq!(
        reach(&graph, &vec![false, false, true]),
        vec![false, false, true, true, false, false, false, false, false]
    );
    let mut long = vec![false; 20];
    long[8] = true;
    long[15] = true;
    assert_eq!(
        reach(&graph, &long),
        vec![false, false, false, false, false, false, false, false, true]
    );
}

#[test]
fn first_reaching_root_is_the_least() {
    let graph = sample_graph();
    let all = vec![true; graph.len()];
    // Storage is reached from Options, Maybe, itself, Unused and both functions.
    assert_eq!(first_root_reaching(&graph, &all, 3), Some(0));
    let mut some = vec![false; graph.len()];
    some[6] = true;
    some[2] = true;
    assert_eq!(first_root_reaching(&graph, &some, 3), Some(2));
    assert_eq!(first_root_reaching(&graph, &some, 5), Some(6));
    assert_eq!(first_root_reaching(&graph, &some, 4), None);
    assert_eq!(first_root_reaching(&graph, &some, 0), None);
    assert_eq!(first_root_reaching(&graph, &all, 9), None);
    assert_eq!(first_root_reaching(&graph, &Vec::new(), 3), None);
}

#[test]
fn reach_ignores_dangling_and_non_type_mentions() {
    let graph = vec![
        symbol(SymbolKind::Function, &[], "f", &[1, 7, 2]),
        symbol(SymbolKind::Function, &[], "g", &[2]),
        sized(&[], "T", &[0], 1, 1),
    ];
    assert_eq!(reach(&graph, &vec![true, false, false]), vec![true, false, true]);
    assert_eq!(reach(&graph, &vec![false, false, false]), vec![false, false, false]);
}

#[test]
fn reach_terminates_on_cycles() {
    let graph = vec![
        sized(&[], "A", &[1], 1, 1),
        sized(&[], "B", &[2], 1, 1),
        sized(&[], "C", &[0], 1, 1),
        sized(&[], "D", &[0], 1, 1),
    ];
    assert_eq!(reach(&graph, &vec![false, true, false, false]), vec![true, true, true, false]);
}

#[test]
fn engine_rules_plan_for_sample_graph() {
    let rules = BindingRuleSet::engine();
    let plan = rules.evaluate(&sample_graph()).unwrap();
    assert_eq!(
        plan,
        vec![
            Emission::Translated,
            Emission::Translated,
            Emission::Opaque { size: 24, align: 8 },
            Emission::Translated,
            Emission::Substituted { substitution: 0 },
            Emission::Skipped,
            Emission::Skipped,
            Emission::Translated,
            Emission::Substituted { substitution: 2 },
        ]
    );
}

#[test]
fn evaluation_is_repeatable() {
    let rules = BindingRuleSet::engine();
    let graph = sample_graph();
    assert_eq!(rules.evaluate(&graph), rules.evaluate(&graph));
    assert_eq!(rules.evaluate(&graph), BindingRuleSet::engine().evaluate(&sample_graph()));
}

#[test]
fn opaque_blob_has_native_size_and_alignment() {
    let mut rules = empty_rules();
    rules.whitelist_types = strings(&["JS.*"]);
    rules.opaque_types = strings(&["JS::Auto.*Impl", "mozilla::UniquePtr.*"]);
    let graph = vec![
        sized(&["JS"], "AutoVectorRooterImpl", &[1], 40, 16),
        sized(&["mozilla"], "UniquePtr<char>", &[], 8, 4),
        sized(&["mozilla"], "UniquePtr<int>", &[], 12, 2),
    ];
    assert_eq!(
        rules.evaluate(&graph),
        Ok(vec![
            Emission::Opaque { size: 40, align: 16 },
            Emission::Opaque { size: 8, align: 4 },
            Emission::Skipped,
        ])
    );
}

#[test]
fn blacklist_wins_over_opaque() {
    let mut rules = empty_rules();
    rules.whitelist_types = strings(&[".*"]);
    rules.opaque_types = strings(&["FILE"]);
    rules.blacklist_types = strings(&["FILE"]);
    rules.substitutions = vec![Substitution {
        module: "root".to_string(),
        replaces: "FILE".to_string(),
        declaration: "pub type FILE = ::libc::FILE;".to_string(),
    }];
    let graph = vec![sized(&[], "FILE", &[], 216, 8)];
    assert_eq!(rules.evaluate(&graph), Ok(vec![Emission::Substituted { substitution: 0 }]));
}

#[test]
fn first_reaching_symbol_is_reported() {
    // `JS::Heap` is whitelisted itself, by `JS.*`, and the variable before it
    // mentions it.
    let mut rules = BindingRuleSet::engine();
    rules.substitutions.remove(2);
    assert_eq!(
        rules.evaluate(&sample_graph()),
        Err(MissingSubstitution { symbol: 8, reached_from: 7 })
    );
    rules.whitelist_vars.clear();
    assert_eq!(
        rules.evaluate(&sample_graph()),
        Err(MissingSubstitution { symbol: 8, reached_from: 8 })
    );
}

#[test]
fn missing_substitution_names_type_and_reaching_symbol() {
    let mut rules = empty_rules();
    rules.whitelist_vars = strings(&["JS::NullHandleValue"]);
    rules.blacklist_types = strings(&["JS::Heap"]);
    assert_eq!(
        rules.evaluate(&sample_graph()),
        Err(MissingSubstitution { symbol: 8, reached_from: 7 })
    );
}

#[test]
fn first_missing_substitution_is_reported() {
    let mut rules = BindingRuleSet::engine();
    rules.substitutions.clear();
    assert_eq!(
        rules.evaluate(&sample_graph()),
        Err(MissingSubstitution { symbol: 4, reached_from: 0 })
    );
}

#[test]
fn substitution_must_be_in_the_types_own_module() {
    let mut rules = empty_rules();
    rules.whitelist_types = strings(&["JS::.*"]);
    rules.blacklist_types = strings(&["JS::Heap"]);
    rules.substitutions = vec![Substitution {
        module: "root".to_string(),
        replaces: "Heap".to_string(),
        declaration: "pub type Heap<T> = ::jsgc::Heap<T>;".to_string(),
    }];
    let graph = vec![sized(&["JS"], "Heap", &[], 8, 8)];
    assert_eq!(
        rules.evaluate(&graph),
        Err(MissingSubstitution { symbol: 0, reached_from: 0 })
    );
    rules.substitutions[0].module = "root::JS".to_string();
    assert_eq!(rules.evaluate(&graph), Ok(vec![Emission::Substituted { substitution: 0 }]));
}

#[test]
fn unreached_blacklisted_type_needs_no_substitution() {
    let mut rules = empty_rules();
    rules.whitelist_functions = strings(&["f"]);
    rules.blacklist_types = strings(&["FILE"]);
    let graph = vec![
        symbol(SymbolKind::Function, &[], "f", &[]),
        sized(&[], "FILE", &[], 216, 8),
    ];
    assert_eq!(rules.evaluate(&graph), Ok(vec![Emission::Translated, Emission::Skipped]));
}

#[test]
fn first_registered_substitution_is_used() {
    let mut rules = empty_rules();
    rules.whitelist_types = strings(&["FILE"]);
    rules.blacklist_types = strings(&["FILE"]);
    let sub = |declaration: &str| Substitution {
        module: "root".to_string(),
        replaces: "FILE".to_string(),
        declaration: declaration.to_string(),
    };
    rules.substitutions = vec![
        Substitution {
            module: "root".to_string(),
            replaces: "Other".to_string(),
            declaration: String::new(),
        },
        sub("a"),
        sub("b"),
    ];
    let graph = vec![sized(&[], "FILE", &[], 216, 8)];
    assert_eq!(rules.evaluate(&graph), Ok(vec![Emission::Substituted { substitution: 1 }]));
    assert_eq!(rules.substitution_for(&graph[0]), Some(1));
    assert_eq!(rules.substitution_for(&sized(&["x"], "FILE", &[], 1, 1)), None);
}

#[test]
fn whitelists_are_kept_apart_by_kind() {
    let mut rules = empty_rules();
    rules.whitelist_functions = strings(&["thing"]);
    let graph = vec![
        symbol(SymbolKind::Function, &[], "thing", &[]),
        symbol(SymbolKind::Variable, &[], "thing", &[]),
        sized(&[], "thing", &[], 1, 1),
    ];
    assert_eq!(
        rules.evaluate(&graph),
        Ok(vec![Emission::Translated, Emission::Skipped, Emission::Skipped])
    );
    rules.whitelist_functions.clear();
    rules.whitelist_vars = strings(&["thing"]);
    assert_eq!(
        rules.evaluate(&graph),
        Ok(vec![Emission::Skipped, Emission::Translated, Emission::Skipped])
    );
}

#[test]
fn empty_graph_has_empty_plan() {
    assert_eq!(BindingRuleSet::engine().evaluate(&Vec::new()), Ok(Vec::new()));
}
