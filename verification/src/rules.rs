//! The binding rule set and its evaluation over a header graph.
//!
//! A symbol gets bindings when a whitelist pattern of its kind matches its
//! qualified name, and a type also when such a symbol reaches it. Of the
//! types that get bindings, one that a blacklist pattern matches is never
//! translated: a hand-written declaration registered for its module and name
//! takes its place, and evaluation fails where none is registered. One that
//! an opaque pattern matches, and no blacklist pattern, becomes a blob of the
//! native size and alignment. Every other symbol is translated as it stands.

use vstd::prelude::*;
use vstd::string::*;
use crate::pattern::{any_matches, chars_match_any, chars_of_each};
use crate::symbols::{
    first_reaching,
    first_root_reaching,
    home_module,
    module_of,
    qualified_chars,
    qualified_name,
    reach,
    reached_from_roots,
    reaches,
    Symbol,
    SymbolKind,
    SymbolView,
};

verus! {

/// A hand-written declaration that stands in for a blacklisted type.
#[derive(Clone, Debug)]
pub struct Substitution {
    /// The module of generated output that receives the declaration.
    pub module: String,
    /// The name, inside the module, of the type that the declaration defines.
    pub replaces: String,
    /// The declaration, spliced into the output as it is.
    pub declaration: String,
}

/// A substitution as contracts see it.
pub ghost struct SubstitutionView {
    pub module: Seq<char>,
    pub replaces: Seq<char>,
    pub declaration: Seq<char>,
}

impl DeepView for Substitution {
    type V = SubstitutionView;

    open spec fn deep_view(&self) -> SubstitutionView {
        SubstitutionView {
            module: self.module@,
            replaces: self.replaces@,
            declaration: self.declaration@,
        }
    }
}

impl View for Substitution {
    type V = SubstitutionView;

    open spec fn view(&self) -> SubstitutionView {
        self.deep_view()
    }
}

/// The pattern lists that steer binding generation.
#[derive(Clone, Debug)]
pub struct BindingRuleSet {
    /// Types that get bindings, with every type they reach.
    pub whitelist_types: Vec<String>,
    /// Functions that get bindings.
    pub whitelist_functions: Vec<String>,
    /// Variables that get bindings.
    pub whitelist_vars: Vec<String>,
    /// Types represented as a blob of bytes.
    pub opaque_types: Vec<String>,
    /// Types that never get generated bindings.
    pub blacklist_types: Vec<String>,
    /// The declarations that stand in for blacklisted types.
    pub substitutions: Vec<Substitution>,
    /// Generated types asserted to be safe to share between threads.
    pub sync_types: Vec<String>,
}

/// A rule set as contracts see it.
pub ghost struct RuleSetView {
    pub whitelist_types: Seq<Seq<char>>,
    pub whitelist_functions: Seq<Seq<char>>,
    pub whitelist_vars: Seq<Seq<char>>,
    pub opaque_types: Seq<Seq<char>>,
    pub blacklist_types: Seq<Seq<char>>,
    pub substitutions: Seq<SubstitutionView>,
    pub sync_types: Seq<Seq<char>>,
}

impl DeepView for BindingRuleSet {
    type V = RuleSetView;

    open spec fn deep_view(&self) -> RuleSetView {
        RuleSetView {
            whitelist_types: self.whitelist_types.deep_view(),
            whitelist_functions: self.whitelist_functions.deep_view(),
            whitelist_vars: self.whitelist_vars.deep_view(),
            opaque_types: self.opaque_types.deep_view(),
            blacklist_types: self.blacklist_types.deep_view(),
            substitutions: self.substitutions.deep_view(),
            sync_types: self.sync_types.deep_view(),
        }
    }
}

impl View for BindingRuleSet {
    type V = RuleSetView;

    open spec fn view(&self) -> RuleSetView {
        self.deep_view()
    }
}

/// What generation does with one symbol.
#[derive(Clone, Copy, Debug, PartialEq, Eq, Structural)]
pub enum Emission {
    /// No binding: nothing asks for the symbol.
    Skipped,
    /// A binding that mirrors the native declaration.
    Translated,
    /// A blob of bytes with the native type's size and alignment.
    Opaque { size: usize, align: usize },
    /// No translation; the substitution at this position of the rule set is
    /// spliced into the type's module.
    Substituted { substitution: usize },
}

/// A blacklisted type that gets bindings and has no substitution.
#[derive(Clone, Copy, Debug, PartialEq, Eq, Structural)]
pub struct MissingSubstitution {
    /// Position of the type in the graph.
    pub symbol: usize,
    /// Position of the first whitelisted symbol that reaches the type.
    pub reached_from: usize,
}

/// A whitelist pattern of the symbol's kind matches its qualified name.
pub open spec fn whitelisted(rules: RuleSetView, sym: SymbolView) -> bool {
    match sym.kind {
        SymbolKind::Type => any_matches(rules.whitelist_types, qualified_name(sym)),
        SymbolKind::Function => any_matches(rules.whitelist_functions, qualified_name(sym)),
        SymbolKind::Variable => any_matches(rules.whitelist_vars, qualified_name(sym)),
    }
}

/// The symbol is a type that a blacklist pattern matches.
pub open spec fn blacklisted(rules: RuleSetView, sym: SymbolView) -> bool {
    sym.kind == SymbolKind::Type && any_matches(rules.blacklist_types, qualified_name(sym))
}

/// The symbol is a type that an opaque pattern matches.
pub open spec fn opaque(rules: RuleSetView, sym: SymbolView) -> bool {
    sym.kind == SymbolKind::Type && any_matches(rules.opaque_types, qualified_name(sym))
}

/// For each symbol of the graph, whether it is whitelisted.
pub open spec fn root_flags(rules: RuleSetView, graph: Seq<SymbolView>) -> Seq<bool> {
    Seq::new(graph.len(), |i: int| whitelisted(rules, graph[i]))
}

/// The symbol at position `i` gets bindings: it is whitelisted, or a
/// whitelisted symbol reaches it.
pub open spec fn included(rules: RuleSetView, graph: Seq<SymbolView>, i: int) -> bool {
    reached_from_roots(graph, root_flags(rules, graph), i)
}

/// The substitution is registered for the symbol's module and name.
pub open spec fn substitutes(sub: SubstitutionView, sym: SymbolView) -> bool {
    sub.module == home_module(sym) && sub.replaces == sym.name
}

/// Some substitution of the rule set is registered for the symbol.
pub open spec fn has_substitution(rules: RuleSetView, sym: SymbolView) -> bool {
    exists|k: int|
        0 <= k < rules.substitutions.len() && substitutes(#[trigger] rules.substitutions[k], sym)
}

/// The substitution at position `k` is the first one registered for the
/// symbol.
pub open spec fn first_substitution(rules: RuleSetView, sym: SymbolView, k: int) -> bool {
    &&& 0 <= k < rules.substitutions.len()
    &&& substitutes(rules.substitutions[k], sym)
    &&& forall|earlier: int|
        0 <= earlier < k ==> !substitutes(#[trigger] rules.substitutions[earlier], sym)
}

/// The symbol at position `i` is a blacklisted type that gets bindings and
/// has no substitution.
pub open spec fn lacks_substitution(rules: RuleSetView, graph: Seq<SymbolView>, i: int) -> bool {
    &&& included(rules, graph, i)
    &&& blacklisted(rules, graph[i])
    &&& !has_substitution(rules, graph[i])
}

/// `e` is what generation does with the symbol at position `i`.
pub open spec fn emits(rules: RuleSetView, graph: Seq<SymbolView>, i: int, e: Emission) -> bool {
    let sym = graph[i];
    if !included(rules, graph, i) {
        e == Emission::Skipped
    } else if blacklisted(rules, sym) {
        e matches Emission::Substituted { substitution } && first_substitution(
            rules,
            sym,
            substitution as int,
        )
    } else if opaque(rules, sym) {
        e == (Emission::Opaque { size: sym.size, align: sym.align })
    } else {
        e == Emission::Translated
    }
}

/// `plan` says for every symbol of the graph what generation does with it.
pub open spec fn is_plan_for(
    rules: RuleSetView,
    graph: Seq<SymbolView>,
    plan: Seq<Emission>,
) -> bool {
    &&& plan.len() == graph.len()
    &&& forall|i: int| 0 <= i < graph.len() ==> emits(rules, graph, i, #[trigger] plan[i])
}

/// Every blacklisted type that gets bindings has a substitution in its own
/// module.
pub open spec fn substitutions_complete(rules: RuleSetView, graph: Seq<SymbolView>) -> bool {
    forall|i: int| 0 <= i < graph.len() ==> !lacks_substitution(rules, graph, i)
}

/// `missing` names the first symbol of the graph that lacks a substitution,
/// and the first whitelisted symbol that reaches it.
pub open spec fn is_first_missing(
    rules: RuleSetView,
    graph: Seq<SymbolView>,
    missing: MissingSubstitution,
) -> bool {
    &&& missing.symbol < graph.len()
    &&& lacks_substitution(rules, graph, missing.symbol as int)
    &&& forall|i: int| 0 <= i < missing.symbol ==> !lacks_substitution(rules, graph, i)
    &&& first_reaching(
        graph,
        root_flags(rules, graph),
        missing.symbol as int,
        missing.reached_from as int,
    )
}

/// `outcome` is what evaluating the rule set over the graph yields: the plan
/// where no substitution is missing, else the first one that is.
pub open spec fn is_outcome_of(
    rules: RuleSetView,
    graph: Seq<SymbolView>,
    outcome: Result<Seq<Emission>, MissingSubstitution>,
) -> bool {
    match outcome {
        Ok(plan) => substitutions_complete(rules, graph) && is_plan_for(rules, graph, plan),
        Err(missing) => is_first_missing(rules, graph, missing),
    }
}

/// The outcome of an evaluation as contracts see it.
pub open spec fn outcome_view(r: Result<Vec<Emission>, MissingSubstitution>) -> Result<
    Seq<Emission>,
    MissingSubstitution,
> {
    match r {
        Ok(plan) => Ok(plan@),
        Err(missing) => Err(missing),
    }
}

/// Evaluation is a function of the rule set and the graph: as long as
/// neither changes, every run yields the same outcome.
pub proof fn lemma_outcome_is_determined(
    rules: RuleSetView,
    graph: Seq<SymbolView>,
    first: Result<Seq<Emission>, MissingSubstitution>,
    second: Result<Seq<Emission>, MissingSubstitution>,
)
    requires
        is_outcome_of(rules, graph, first),
        is_outcome_of(rules, graph, second),
    ensures
        first == second,
{
    match (first, second) {
        (Ok(a), Ok(b)) => {
            assert forall|i: int| 0 <= i < graph.len() implies a[i] == b[i] by {
                assert(emits(rules, graph, i, a[i]));
                assert(emits(rules, graph, i, b[i]));
            }
            assert(a =~= b);
        },
        (Err(a), Err(b)) => {
            assert(a.symbol == b.symbol);
            let to = a.symbol as int;
            assert(a.reached_from == b.reached_from) by {
                if a.reached_from < b.reached_from {
                    assert(reaches(graph, a.reached_from as int, to));
                } else if b.reached_from < a.reached_from {
                    assert(reaches(graph, b.reached_from as int, to));
                }
            }
        },
        (Ok(_), Err(b)) => {
            assert(lacks_substitution(rules, graph, b.symbol as int));
        },
        (Err(a), Ok(_)) => {
            assert(lacks_substitution(rules, graph, a.symbol as int));
        },
    }
}

/// A type that gets bindings, that an opaque pattern matches and no blacklist
/// pattern, is represented by a blob of the native type's size and
/// alignment; and whatever a plan represents by a blob has the size and the
/// alignment of its native type.
pub proof fn lemma_opaque_keeps_native_layout(
    rules: RuleSetView,
    graph: Seq<SymbolView>,
    plan: Seq<Emission>,
    i: int,
)
    requires
        is_plan_for(rules, graph, plan),
        0 <= i < graph.len(),
    ensures
        included(rules, graph, i) && opaque(rules, graph[i]) && !blacklisted(rules, graph[i])
            ==> plan[i] == (Emission::Opaque { size: graph[i].size, align: graph[i].align }),
        plan[i] matches Emission::Opaque { size, align } ==> size == graph[i].size && align
            == graph[i].align,
{
    assert(emits(rules, graph, i, plan[i]));
}

/// In a plan every blacklisted type that gets bindings is replaced by a
/// substitution registered for the type's own module and name, and is not
/// translated.
pub proof fn lemma_blacklisted_is_substituted(
    rules: RuleSetView,
    graph: Seq<SymbolView>,
    plan: Seq<Emission>,
    i: int,
)
    requires
        is_plan_for(rules, graph, plan),
        0 <= i < graph.len(),
        included(rules, graph, i),
        blacklisted(rules, graph[i]),
    ensures
        plan[i] matches Emission::Substituted { substitution } && substitution
            < rules.substitutions.len() && rules.substitutions[substitution as int].module
            == home_module(graph[i]) && rules.substitutions[substitution as int].replaces
            == graph[i].name,
{
    assert(emits(rules, graph, i, plan[i]));
}

/// Where a plan exists, no blacklisted type that gets bindings is without a
/// substitution.
pub proof fn lemma_plan_needs_complete_substitutions(
    rules: RuleSetView,
    graph: Seq<SymbolView>,
    plan: Seq<Emission>,
)
    requires
        is_plan_for(rules, graph, plan),
    ensures
        substitutions_complete(rules, graph),
{
    assert forall|i: int| 0 <= i < graph.len() implies !lacks_substitution(rules, graph, i) by {
        assert(emits(rules, graph, i, plan[i]));
    }
}

/// The pattern lists of a rule set, each pattern as its characters.
struct Compiled {
    whitelist_types: Vec<Vec<char>>,
    whitelist_functions: Vec<Vec<char>>,
    whitelist_vars: Vec<Vec<char>>,
    opaque_types: Vec<Vec<char>>,
    blacklist_types: Vec<Vec<char>>,
}

impl Compiled {
    spec fn mirrors(&self, rules: RuleSetView) -> bool {
        &&& self.whitelist_types.deep_view() == rules.whitelist_types
        &&& self.whitelist_functions.deep_view() == rules.whitelist_functions
        &&& self.whitelist_vars.deep_view() == rules.whitelist_vars
        &&& self.opaque_types.deep_view() == rules.opaque_types
        &&& self.blacklist_types.deep_view() == rules.blacklist_types
    }

    fn of(rules: &BindingRuleSet) -> (c: Compiled)
        ensures
            c.mirrors(rules.deep_view()),
    {
        Compiled {
            whitelist_types: chars_of_each(&rules.whitelist_types),
            whitelist_functions: chars_of_each(&rules.whitelist_functions),
            whitelist_vars: chars_of_each(&rules.whitelist_vars),
            opaque_types: chars_of_each(&rules.opaque_types),
            blacklist_types: chars_of_each(&rules.blacklist_types),
        }
    }

    fn whitelists(&self, sym: &Symbol, name: &Vec<char>, Ghost(rules): Ghost<RuleSetView>) -> (r:
        bool)
        requires
            self.mirrors(rules),
            name@ == qualified_name(sym.deep_view()),
        ensures
            r == whitelisted(rules, sym.deep_view()),
    {
        match sym.kind {
            SymbolKind::Type => chars_match_any(&self.whitelist_types, name),
            SymbolKind::Function => chars_match_any(&self.whitelist_functions, name),
            SymbolKind::Variable => chars_match_any(&self.whitelist_vars, name),
        }
    }

    fn blacklists(&self, sym: &Symbol, name: &Vec<char>, Ghost(rules): Ghost<RuleSetView>) -> (r:
        bool)
        requires
            self.mirrors(rules),
            name@ == qualified_name(sym.deep_view()),
        ensures
            r == blacklisted(rules, sym.deep_view()),
    {
        match sym.kind {
            SymbolKind::Type => chars_match_any(&self.blacklist_types, name),
            _ => false,
        }
    }

    fn makes_opaque(&self, sym: &Symbol, name: &Vec<char>, Ghost(rules): Ghost<RuleSetView>) -> (r:
        bool)
        requires
            self.mirrors(rules),
            name@ == qualified_name(sym.deep_view()),
        ensures
            r == opaque(rules, sym.deep_view()),
    {
        match sym.kind {
            SymbolKind::Type => chars_match_any(&self.opaque_types, name),
            _ => false,
        }
    }
}

impl BindingRuleSet {
    /// The position of the first substitution registered for `sym`.
    pub fn substitution_for(&self, sym: &Symbol) -> (r: Option<usize>)
        ensures
            match r {
                Some(k) => first_substitution(self.deep_view(), sym.deep_view(), k as int),
                None => !has_substitution(self.deep_view(), sym.deep_view()),
            },
    {
        let module = module_of(sym);
        let n: usize = self.substitutions.len();
        let mut k: usize = 0;
        while k < n
            invariant
                n == self.substitutions@.len(),
                k <= n,
                module@ == home_module(sym.deep_view()),
                forall|t: int|
                    0 <= t < k ==> !substitutes(
                        #[trigger] self.deep_view().substitutions[t],
                        sym.deep_view(),
                    ),
            decreases n - k,
        {
            assert(self.deep_view().substitutions[k as int] == self.substitutions@[k as int]
                .deep_view());
            if self.substitutions[k].module == module && self.substitutions[k].replaces
                == sym.name {
                return Some(k);
            }
            k += 1;
        }
        None
    }

    /// Says for every symbol of `graph` what generation does with it, or
    /// names the first blacklisted type that gets bindings and has no
    /// substitution, with the first whitelisted symbol that reaches it.
    pub fn evaluate(&self, graph: &Vec<Symbol>) -> (r: Result<Vec<Emission>, MissingSubstitution>)
        ensures
            is_outcome_of(self.deep_view(), graph.deep_view(), outcome_view(r)),
            r is Ok <==> substitutions_complete(self.deep_view(), graph.deep_view()),
    {
        let ghost rules = self.deep_view();
        let ghost g = graph.deep_view();
        let compiled = Compiled::of(self);
        let n: usize = graph.len();
        let mut names: Vec<Vec<char>> = Vec::new();
        let mut roots: Vec<bool> = Vec::new();
        let mut i: usize = 0;
        while i < n
            invariant
                rules == self.deep_view(),
                g == graph.deep_view(),
                compiled.mirrors(rules),
                n == graph@.len(),
                i <= n,
                names@.len() == i,
                roots@.len() == i,
                forall|t: int| 0 <= t < i ==> (#[trigger] names@[t])@ == qualified_name(g[t]),
                forall|t: int| 0 <= t < i ==> #[trigger] roots@[t] == whitelisted(rules, g[t]),
            decreases n - i,
        {
            assert(g[i as int] == graph@[i as int].deep_view());
            let name = qualified_chars(&graph[i]);
            let flag = compiled.whitelists(&graph[i], &name, Ghost(rules));
            names.push(name);
            roots.push(flag);
            i += 1;
        }
        assert(roots@ =~= root_flags(rules, g));
        let marks = reach(graph, &roots);
        let mut plan: Vec<Emission> = Vec::new();
        let mut i: usize = 0;
        while i < n
            invariant
                rules == self.deep_view(),
                g == graph.deep_view(),
                compiled.mirrors(rules),
                n == graph@.len(),
                i <= n,
                names@.len() == n,
                forall|t: int| 0 <= t < n ==> (#[trigger] names@[t])@ == qualified_name(g[t]),
                roots@ == root_flags(rules, g),
                marks@.len() == n,
                forall|t: int| 0 <= t < n ==> #[trigger] marks@[t] == included(rules, g, t),
                plan@.len() == i,
                forall|t: int| 0 <= t < i ==> emits(rules, g, t, #[trigger] plan@[t]),
                forall|t: int| 0 <= t < i ==> !lacks_substitution(rules, g, t),
            decreases n - i,
        {
            assert(g[i as int] == graph@[i as int].deep_view());
            assert(marks@[i as int] == included(rules, g, i as int));
            let emission = if !marks[i] {
                Emission::Skipped
            } else if compiled.blacklists(&graph[i], &names[i], Ghost(rules)) {
                match self.substitution_for(&graph[i]) {
                    Some(k) => Emission::Substituted { substitution: k },
                    None => {
                        assert(lacks_substitution(rules, g, i as int));
                        match first_root_reaching(graph, &roots, i) {
                            Some(root) => {
                                return Err(MissingSubstitution { symbol: i, reached_from: root });
                            },
                            None => unreached(),
                        }
                    },
                }
            } else if compiled.makes_opaque(&graph[i], &names[i], Ghost(rules)) {
                Emission::Opaque { size: graph[i].size, align: graph[i].align }
            } else {
                Emission::Translated
            };
            plan.push(emission);
            i += 1;
        }
        Ok(plan)
    }
}

} // verus!
