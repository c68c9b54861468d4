//! Symbols of a parsed header set, and which of them a set of roots reaches.
//!
//! A header graph is a vector of symbols. A symbol names, by position, the
//! types that its signature or definition mentions. Only an edge to a type
//! counts: a type is pulled in by whatever mentions it, a function or a
//! variable by nothing.

use vstd::prelude::*;
use vstd::string::*;
use crate::text::{chars_of, join, joined};

verus! {

/// What a symbol is.
#[derive(Clone, Copy, Debug, PartialEq, Eq, Structural)]
pub enum SymbolKind {
    Type,
    Function,
    Variable,
}

/// A symbol that the header parser found.
#[derive(Clone, Debug)]
pub struct Symbol {
    pub kind: SymbolKind,
    /// The namespaces around the symbol, outermost first.
    pub namespaces: Vec<String>,
    /// The name inside its innermost namespace.
    pub name: String,
    /// Positions, in the graph, of the symbols that this one mentions.
    pub uses: Vec<usize>,
    /// Size of the native type in bytes; of no meaning for other kinds.
    pub size: usize,
    /// Alignment of the native type in bytes; of no meaning for other kinds.
    pub align: usize,
}

/// A symbol as contracts see it.
pub ghost struct SymbolView {
    pub kind: SymbolKind,
    pub namespaces: Seq<Seq<char>>,
    pub name: Seq<char>,
    pub uses: Seq<usize>,
    pub size: usize,
    pub align: usize,
}

impl DeepView for Symbol {
    type V = SymbolView;

    open spec fn deep_view(&self) -> SymbolView {
        SymbolView {
            kind: self.kind,
            namespaces: self.namespaces.deep_view(),
            name: self.name@,
            uses: self.uses@,
            size: self.size,
            align: self.align,
        }
    }
}

impl View for Symbol {
    type V = SymbolView;

    open spec fn view(&self) -> SymbolView {
        self.deep_view()
    }
}

/// The text between two parts of a qualified name.
pub open spec fn separator() -> Seq<char> {
    seq![':', ':']
}

/// The name of the outermost module of generated output.
pub open spec fn root_module() -> Seq<char> {
    seq!['r', 'o', 'o', 't']
}

/// The symbol's name with its namespaces in front: `JS::Heap`.
pub open spec fn qualified_name(sym: SymbolView) -> Seq<char> {
    joined(sym.namespaces.push(sym.name), separator())
}

/// The module of generated output that mirrors the symbol's namespaces:
/// `root::JS`.
pub open spec fn home_module(sym: SymbolView) -> Seq<char> {
    joined(seq![root_module()] + sym.namespaces, separator())
}

/// No character of `part` is a colon.
pub open spec fn colon_free(part: Seq<char>) -> bool {
    forall|k: int| 0 <= k < part.len() ==> part[k] != ':'
}

/// No part of `parts` holds a colon.
pub open spec fn all_colon_free(parts: Seq<Seq<char>>) -> bool {
    forall|n: int| 0 <= n < parts.len() ==> colon_free(#[trigger] parts[n])
}

/// Neither the symbol's name nor any of its namespaces holds a colon.
pub open spec fn plainly_named(sym: SymbolView) -> bool {
    all_colon_free(sym.namespaces.push(sym.name))
}

/// Parts without colons can be read off their joined text: two lists of
/// such parts that join to the same text are the same list.
pub proof fn lemma_joined_parts_are_determined(p: Seq<Seq<char>>, q: Seq<Seq<char>>)
    requires
        all_colon_free(p),
        all_colon_free(q),
        p.len() >= 1,
        q.len() >= 1,
        joined(p, separator()) == joined(q, separator()),
    ensures
        p == q,
    decreases p.len(),
{
    let sep = separator();
    let t = joined(p, sep);
    if p.len() == 1 && q.len() == 1 {
        assert(p =~= q);
    } else if p.len() == 1 {
        let y = joined(q.drop_last(), sep);
        assert(t == y + sep + q.last());
        assert(t[y.len() as int] == sep[0]);
        assert(colon_free(p[0]));
    } else if q.len() == 1 {
        let x = joined(p.drop_last(), sep);
        assert(t == x + sep + p.last());
        assert(t[x.len() as int] == sep[0]);
        assert(colon_free(q[0]));
    } else {
        let x = joined(p.drop_last(), sep);
        let y = joined(q.drop_last(), sep);
        let a = p.last();
        let b = q.last();
        assert(t == x + sep + a);
        assert(t == y + sep + b);
        assert(t.len() == x.len() + 2 + a.len());
        assert(t.len() == y.len() + 2 + b.len());
        assert(colon_free(a));
        assert(colon_free(b));
        if a.len() < b.len() {
            let i: int = x.len() as int + 1;
            assert(t[i] == sep[1]);
            assert(t[i] == b[i - y.len() - 2]);
        } else if b.len() < a.len() {
            let i: int = y.len() as int + 1;
            assert(t[i] == sep[1]);
            assert(t[i] == a[i - x.len() - 2]);
        }
        assert(a.len() == b.len());
        assert(x =~= t.subrange(0, x.len() as int));
        assert(y =~= t.subrange(0, y.len() as int));
        assert(a =~= t.skip(x.len() as int + 2));
        assert(b =~= t.skip(y.len() as int + 2));
        assert forall|n: int| 0 <= n < p.drop_last().len() implies colon_free(
            #[trigger] p.drop_last()[n],
        ) by {
            assert(p.drop_last()[n] == p[n]);
        }
        assert forall|n: int| 0 <= n < q.drop_last().len() implies colon_free(
            #[trigger] q.drop_last()[n],
        ) by {
            assert(q.drop_last()[n] == q[n]);
        }
        lemma_joined_parts_are_determined(p.drop_last(), q.drop_last());
        assert(p =~= p.drop_last().push(a));
        assert(q =~= q.drop_last().push(b));
    }
}

/// The qualified name of a plainly named symbol says where the symbol lives:
/// two such symbols with the same qualified name have the same namespaces and
/// the same name.
pub proof fn lemma_qualified_name_is_unambiguous(a: SymbolView, b: SymbolView)
    requires
        plainly_named(a),
        plainly_named(b),
        qualified_name(a) == qualified_name(b),
    ensures
        a.namespaces == b.namespaces,
        a.name == b.name,
        home_module(a) == home_module(b),
{
    let p = a.namespaces.push(a.name);
    let q = b.namespaces.push(b.name);
    lemma_joined_parts_are_determined(p, q);
    assert(a.namespaces =~= p.drop_last());
    assert(b.namespaces =~= q.drop_last());
    assert(a.name == p.last());
    assert(b.name == q.last());
}

/// Symbol `from` mentions the type at position `to`.
pub open spec fn mentions(graph: Seq<SymbolView>, from: int, to: int) -> bool {
    &&& 0 <= from < graph.len()
    &&& 0 <= to < graph.len()
    &&& graph[to].kind == SymbolKind::Type
    &&& exists|k: int| 0 <= k < graph[from].uses.len() && #[trigger] graph[from].uses[k] == to
}

/// `to` is reached from `root` along at most `steps` mentions.
pub open spec fn reaches_in(graph: Seq<SymbolView>, root: int, to: int, steps: nat) -> bool
    decreases steps,
{
    if steps == 0 {
        root == to && 0 <= root < graph.len()
    } else {
        reaches_in(graph, root, to, (steps - 1) as nat) || exists|mid: int|
            reaches_in(graph, root, mid, (steps - 1) as nat) && #[trigger] mentions(graph, mid, to)
    }
}

/// `to` is `root` itself or a type that `root` mentions, directly or through
/// other types.
pub open spec fn reaches(graph: Seq<SymbolView>, root: int, to: int) -> bool {
    exists|steps: nat| reaches_in(graph, root, to, steps)
}

/// `roots` flags the symbol at position `root`.
pub open spec fn is_root(roots: Seq<bool>, root: int) -> bool {
    0 <= root < roots.len() && roots[root]
}

/// Some symbol that `roots` flags reaches `to`.
pub open spec fn reached_from_roots(graph: Seq<SymbolView>, roots: Seq<bool>, to: int) -> bool {
    exists|root: int| is_root(roots, root) && #[trigger] reaches(graph, root, to)
}

/// How many entries of `marks` are still `false`.
spec fn unmarked(marks: Seq<bool>) -> nat
    decreases marks.len(),
{
    if marks.len() == 0 {
        0
    } else {
        unmarked(marks.drop_last()) + if marks.last() {
            0nat
        } else {
            1nat
        }
    }
}

proof fn lemma_marking_lowers_unmarked(marks: Seq<bool>, i: int)
    requires
        0 <= i < marks.len(),
        !marks[i],
    ensures
        unmarked(marks.update(i, true)) + 1 == unmarked(marks),
    decreases marks.len(),
{
    let after = marks.update(i, true);
    if i == marks.len() - 1 {
        assert(after.drop_last() =~= marks.drop_last());
    } else {
        lemma_marking_lowers_unmarked(marks.drop_last(), i);
        assert(after.drop_last() =~= marks.drop_last().update(i, true));
    }
}

/// What the roots reach, they reach along one more mention too.
proof fn lemma_reach_extends(graph: Seq<SymbolView>, roots: Seq<bool>, mid: int, to: int)
    requires
        reached_from_roots(graph, roots, mid),
        mentions(graph, mid, to),
    ensures
        reached_from_roots(graph, roots, to),
{
    let root = choose|root: int| is_root(roots, root) && #[trigger] reaches(graph, root, mid);
    let steps = choose|steps: nat| reaches_in(graph, root, mid, steps);
    assert(reaches_in(graph, root, to, steps + 1));
    assert(reaches(graph, root, to));
}

/// Every symbol of the graph reaches itself.
pub proof fn lemma_reach_self(graph: Seq<SymbolView>, root: int)
    requires
        0 <= root < graph.len(),
    ensures
        reaches(graph, root, root),
{
    assert(reaches_in(graph, root, root, 0));
}

/// Only symbols of the graph are reached, and only from symbols of the graph.
pub proof fn lemma_reach_stays_in_graph(graph: Seq<SymbolView>, root: int, to: int)
    requires
        reaches(graph, root, to),
    ensures
        0 <= root < graph.len(),
        0 <= to < graph.len(),
{
    let steps = choose|steps: nat| reaches_in(graph, root, to, steps);
    lemma_reach_in_stays_in_graph(graph, root, to, steps);
}

proof fn lemma_reach_in_stays_in_graph(graph: Seq<SymbolView>, root: int, to: int, steps: nat)
    requires
        reaches_in(graph, root, to, steps),
    ensures
        0 <= root < graph.len(),
        0 <= to < graph.len(),
    decreases steps,
{
    if steps > 0 {
        if reaches_in(graph, root, to, (steps - 1) as nat) {
            lemma_reach_in_stays_in_graph(graph, root, to, (steps - 1) as nat);
        } else {
            let mid = choose|mid: int|
                reaches_in(graph, root, mid, (steps - 1) as nat) && #[trigger] mentions(
                    graph,
                    mid,
                    to,
                );
            lemma_reach_in_stays_in_graph(graph, root, mid, (steps - 1) as nat);
        }
    }
}

/// `marks` holds every root and, with a marked symbol, every type it mentions.
spec fn closed(graph: Seq<SymbolView>, roots: Seq<bool>, marks: Seq<bool>) -> bool {
    &&& forall|root: int| 0 <= root < graph.len() && is_root(roots, root) ==> marks[root]
    &&& forall|from: int, to: int| #[trigger]
        mentions(graph, from, to) && marks[from] ==> marks[to]
}

/// A closed set of marks holds all that the roots reach.
proof fn lemma_closed_holds_reached(
    graph: Seq<SymbolView>,
    roots: Seq<bool>,
    marks: Seq<bool>,
    root: int,
    to: int,
    steps: nat,
)
    requires
        closed(graph, roots, marks),
        is_root(roots, root),
        reaches_in(graph, root, to, steps),
    ensures
        marks[to],
    decreases steps,
{
    if steps > 0 {
        if reaches_in(graph, root, to, (steps - 1) as nat) {
            lemma_closed_holds_reached(graph, roots, marks, root, to, (steps - 1) as nat);
        } else {
            let mid = choose|mid: int|
                reaches_in(graph, root, mid, (steps - 1) as nat) && #[trigger] mentions(
                    graph,
                    mid,
                    to,
                );
            lemma_closed_holds_reached(graph, roots, marks, root, mid, (steps - 1) as nat);
        }
    }
}

/// Each marked symbol is reached from the roots.
spec fn sound(graph: Seq<SymbolView>, roots: Seq<bool>, marks: Seq<bool>) -> bool {
    forall|i: int|
        0 <= i < graph.len() && #[trigger] marks[i] ==> reached_from_roots(graph, roots, i)
}

/// Marks the types that symbol `from` mentions and that are not yet marked.
fn mark_mentioned(
    graph: &Vec<Symbol>,
    Ghost(roots): Ghost<Seq<bool>>,
    from: usize,
    marks: &mut Vec<bool>,
) -> (changed: bool)
    requires
        from < graph@.len(),
        old(marks)@.len() == graph@.len(),
        old(marks)@[from as int],
        sound(graph.deep_view(), roots, old(marks)@),
    ensures
        final(marks)@.len() == graph@.len(),
        sound(graph.deep_view(), roots, final(marks)@),
        forall|i: int| 0 <= i < graph@.len() && old(marks)@[i] ==> final(marks)@[i],
        !changed ==> final(marks)@ == old(marks)@,
        changed ==> unmarked(final(marks)@) < unmarked(old(marks)@),
        forall|to: int| mentions(graph.deep_view(), from as int, to) ==> final(marks)@[to],
{
    let ghost g = graph.deep_view();
    let n: usize = graph.len();
    let m: usize = graph[from].uses.len();
    let mut changed = false;
    let mut k: usize = 0;
    assert(g[from as int].uses == graph@[from as int].uses@);
    while k < m
        invariant
            g == graph.deep_view(),
            n == graph@.len(),
            from < n,
            m == graph@[from as int].uses@.len(),
            g[from as int].uses == graph@[from as int].uses@,
            k <= m,
            marks@.len() == n,
            marks@[from as int],
            sound(g, roots, marks@),
            forall|i: int| 0 <= i < n && old(marks)@[i] ==> marks@[i],
            !changed ==> marks@ == old(marks)@,
            changed ==> unmarked(marks@) < unmarked(old(marks)@),
            unmarked(marks@) <= unmarked(old(marks)@),
            forall|t: int|
                0 <= t < k ==> {
                    let to = #[trigger] g[from as int].uses[t];
                    to < n && g[to as int].kind == SymbolKind::Type ==> marks@[to as int]
                },
        decreases m - k,
    {
        let to: usize = graph[from].uses[k];
        if to < n {
            assert(g[to as int].kind == graph@[to as int].kind);
            let is_type: bool = match graph[to].kind {
                SymbolKind::Type => true,
                _ => false,
            };
            if is_type && !marks[to] {
                proof {
                    assert(mentions(g, from as int, to as int));
                    lemma_reach_extends(g, roots, from as int, to as int);
                    lemma_marking_lowers_unmarked(marks@, to as int);
                }
                marks[to] = true;
                changed = true;
            }
        }
        k += 1;
    }
    changed
}

/// For every symbol of the graph, whether a flagged root reaches it. A flag
/// beyond the end of the graph flags nothing, and a symbol beyond the end of
/// `roots` is no root.
pub fn reach(graph: &Vec<Symbol>, roots: &Vec<bool>) -> (marks: Vec<bool>)
    ensures
        marks@.len() == graph@.len(),
        forall|i: int|
            0 <= i < graph@.len() ==> #[trigger] marks@[i] == reached_from_roots(
                graph.deep_view(),
                roots@,
                i,
            ),
{
    let ghost g = graph.deep_view();
    let n: usize = graph.len();
    let given: usize = roots.len();
    let mut marks: Vec<bool> = Vec::new();
    let mut i: usize = 0;
    while i < n
        invariant
            g == graph.deep_view(),
            n == graph@.len(),
            given == roots@.len(),
            i <= n,
            marks@.len() == i,
            forall|t: int| 0 <= t < i ==> marks@[t] == is_root(roots@, t),
        decreases n - i,
    {
        marks.push(i < given && roots[i]);
        i += 1;
    }
    proof {
        assert forall|t: int| 0 <= t < n && #[trigger] marks@[t] implies reached_from_roots(
            g,
            roots@,
            t,
        ) by {
            lemma_reach_self(g, t);
        }
    }
    let mut changed = true;
    while changed
        invariant
            g == graph.deep_view(),
            n == graph@.len(),
            marks@.len() == n,
            sound(g, roots@, marks@),
            forall|root: int| 0 <= root < n && is_root(roots@, root) ==> marks@[root],
            !changed ==> closed(g, roots@, marks@),
        decreases unmarked(marks@), changed as int,
    {
        changed = false;
        let ghost before = marks@;
        let mut from: usize = 0;
        while from < n
            invariant
                g == graph.deep_view(),
                n == graph@.len(),
                marks@.len() == n,
                from <= n,
                sound(g, roots@, marks@),
                forall|root: int| 0 <= root < n && is_root(roots@, root) ==> marks@[root],
                !changed ==> marks@ == before,
                changed ==> unmarked(marks@) < unmarked(before),
                !changed ==> forall|t: int, to: int|
                    0 <= t < from && marks@[t] && #[trigger] mentions(g, t, to) ==> marks@[to],
            decreases n - from,
        {
            if marks[from] {
                let step = mark_mentioned(graph, Ghost(roots@), from, &mut marks);
                if step {
                    changed = true;
                }
            }
            from += 1;
        }
    }
    proof {
        assert forall|i: int| 0 <= i < n implies #[trigger] marks@[i] == reached_from_roots(
            g,
            roots@,
            i,
        ) by {
            if reached_from_roots(g, roots@, i) {
                let root = choose|root: int|
                    is_root(roots@, root) && #[trigger] reaches(g, root, i);
                let steps = choose|steps: nat| reaches_in(g, root, i, steps);
                lemma_closed_holds_reached(g, roots@, marks@, root, i, steps);
            }
        }
    }
    marks
}

/// `root` is the first flagged root that reaches `to`.
pub open spec fn first_reaching(
    graph: Seq<SymbolView>,
    roots: Seq<bool>,
    to: int,
    root: int,
) -> bool {
    &&& is_root(roots, root)
    &&& reaches(graph, root, to)
    &&& forall|earlier: int|
        0 <= earlier < root ==> !(is_root(roots, earlier) && #[trigger] reaches(graph, earlier, to))
}

/// Flags for a graph of `n` symbols that flag the symbol at `root` alone.
fn only(n: usize, root: usize) -> (flags: Vec<bool>)
    ensures
        flags@.len() == n,
        forall|i: int| 0 <= i < n ==> flags@[i] == (i == root),
{
    let mut flags: Vec<bool> = Vec::new();
    let mut i: usize = 0;
    while i < n
        invariant
            i <= n,
            flags@.len() == i,
            forall|t: int| 0 <= t < i ==> flags@[t] == (t == root),
        decreases n - i,
    {
        flags.push(i == root);
        i += 1;
    }
    flags
}

/// The position of the first flagged root that reaches the symbol at `to`,
/// or `None` where no flagged root reaches it.
pub fn first_root_reaching(graph: &Vec<Symbol>, roots: &Vec<bool>, to: usize) -> (r: Option<usize>)
    ensures
        match r {
            Some(root) => first_reaching(graph.deep_view(), roots@, to as int, root as int),
            None => !reached_from_roots(graph.deep_view(), roots@, to as int),
        },
{
    let ghost g = graph.deep_view();
    let n: usize = graph.len();
    let given: usize = roots.len();
    if to >= n {
        proof {
            if reached_from_roots(g, roots@, to as int) {
                let root = choose|root: int|
                    is_root(roots@, root) && #[trigger] reaches(g, root, to as int);
                lemma_reach_stays_in_graph(g, root, to as int);
            }
        }
        return None;
    }
    let mut root: usize = 0;
    while root < n && root < given
        invariant
            g == graph.deep_view(),
            n == graph@.len(),
            given == roots@.len(),
            to < n,
            root <= n,
            root <= given,
            forall|earlier: int|
                0 <= earlier < root ==> !(is_root(roots@, earlier) && #[trigger] reaches(
                    g,
                    earlier,
                    to as int,
                )),
        decreases n - root,
    {
        if roots[root] {
            let alone = only(n, root);
            let marks = reach(graph, &alone);
            proof {
                if reaches(g, root as int, to as int) {
                    assert(is_root(alone@, root as int));
                }
                if reached_from_roots(g, alone@, to as int) {
                    let from = choose|from: int|
                        is_root(alone@, from) && #[trigger] reaches(g, from, to as int);
                    assert(from == root);
                }
                assert(marks@[to as int] == reaches(g, root as int, to as int));
            }
            if marks[to] {
                return Some(root);
            }
        }
        root += 1;
    }
    proof {
        if reached_from_roots(g, roots@, to as int) {
            let from = choose|from: int|
                is_root(roots@, from) && #[trigger] reaches(g, from, to as int);
            lemma_reach_stays_in_graph(g, from, to as int);
        }
    }
    None
}

/// The symbol's name with its namespaces in front, as characters.
pub fn qualified_chars(sym: &Symbol) -> (r: Vec<char>)
    ensures
        r@ == qualified_name(sym.deep_view()),
{
    let mut parts = sym.namespaces.clone();
    parts.push(sym.name.clone());
    proof {
        assert(parts.deep_view() =~= sym.namespaces.deep_view().push(sym.name@));
        reveal_strlit("::");
        assert("::"@ =~= separator());
    }
    let joined_text = join(&parts, "::");
    chars_of(joined_text.as_str())
}

/// The module of generated output that mirrors the symbol's namespaces.
pub fn module_of(sym: &Symbol) -> (r: String)
    ensures
        r@ == home_module(sym.deep_view()),
{
    let mut parts: Vec<String> = Vec::new();
    parts.push(String::from_str("root"));
    let n: usize = sym.namespaces.len();
    let mut k: usize = 0;
    proof {
        reveal_strlit("root");
        assert("root"@ =~= root_module());
    }
    while k < n
        invariant
            n == sym.namespaces@.len(),
            k <= n,
            parts.deep_view() == seq![root_module()] + sym.namespaces.deep_view().take(k as int),
        decreases n - k,
    {
        let ghost before = parts;
        parts.push(sym.namespaces[k].clone());
        proof {
            let names = sym.namespaces.deep_view();
            let wanted = seq![root_module()] + names.take(k + 1);
            assert(names.len() == n);
            assert(before.deep_view().len() == before@.len());
            assert(before@.len() == k + 1);
            assert(wanted.len() == k + 2);
            assert forall|t: int| 0 <= t < parts@.len() implies parts.deep_view()[t]
                == wanted[t] by {
                if t < before@.len() {
                    assert(parts@[t] == before@[t]);
                    assert(before.deep_view()[t] == before@[t]@);
                    assert((seq![root_module()] + names.take(k as int))[t] == wanted[t]);
                } else {
                    assert(parts@[t]@ == sym.namespaces@[k as int]@);
                    assert(names[k as int] == sym.namespaces@[k as int]@);
                    assert(wanted[t] == names.take(k + 1)[k as int]);
                }
            }
            assert(parts.deep_view() =~= wanted);
        }
        k += 1;
    }
    proof {
        assert(sym.namespaces.deep_view().take(n as int) =~= sym.namespaces.deep_view());
        reveal_strlit("::");
        assert("::"@ =~= separator());
    }
    join(&parts, "::")
}

} // verus!
