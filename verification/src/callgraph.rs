//! What functions of C and C++ sources do to their callers.
use vstd::hash_map::StringHashMap;
use vstd::prelude::*;

use crate::finding::{gather, views, Finding, FindingModel, Severity};
use crate::rule::{
    allocator, called, called_function, is_allocator, report_if, reported,
};
use crate::syntax::{indices, SyntaxTree, TreeModel};
use crate::text::{glue, same};

verus! {

/// What a function does.
pub struct FunctionSummary {
    pub name: String,
    pub returns_malloc: bool,
    pub takes_user_input: bool,
    pub calls_system: bool,
}

/// The contents of a summary.
#[verifier::ext_equal]
pub struct SummaryModel {
    pub name: Seq<char>,
    pub returns_malloc: bool,
    pub takes_user_input: bool,
    pub calls_system: bool,
}

impl View for FunctionSummary {
    type V = SummaryModel;

    open spec fn view(&self) -> SummaryModel {
        SummaryModel {
            name: self.name@,
            returns_malloc: self.returns_malloc,
            takes_user_input: self.takes_user_input,
            calls_system: self.calls_system,
        }
    }
}

/// Summaries of functions by their names.
pub struct Summaries {
    entries: StringHashMap<FunctionSummary>,
}

impl View for Summaries {
    type V = Map<Seq<char>, SummaryModel>;

    closed spec fn view(&self) -> Map<Seq<char>, SummaryModel> {
        Map::new(|s: Seq<char>| self.entries@.contains_key(s), |s: Seq<char>| self.entries@[s]@)
    }
}

impl Summaries {
    /// No summaries.
    pub fn new() -> (r: Summaries)
        ensures
            r@ == Map::<Seq<char>, SummaryModel>::empty(),
    {
        let r = Summaries { entries: StringHashMap::new() };
        assert(r@ =~= Map::<Seq<char>, SummaryModel>::empty());
        r
    }

    /// Sets the summary of the function that it names.
    pub fn insert(&mut self, summary: FunctionSummary)
        ensures
            final(self)@ == old(self)@.insert(summary@.name, summary@),
    {
        let name = summary.name.clone();
        self.entries.insert(name, summary);
        assert(self@ =~= old(self)@.insert(summary@.name, summary@));
    }

    /// The summary of the function `name`.
    pub fn get(&self, name: &str) -> (r: Option<&FunctionSummary>)
        ensures
            match r {
                Some(s) => self@.contains_key(name@) && self@[name@] == s@,
                None => !self@.contains_key(name@),
            },
    {
        self.entries.get(name)
    }
}

/// The summary of a function of the C library.
pub open spec fn library_summary(
    name: Seq<char>,
    returns_malloc: bool,
    takes_user_input: bool,
    calls_system: bool,
) -> SummaryModel {
    SummaryModel { name, returns_malloc, takes_user_input, calls_system }
}

/// The summaries of the functions of the C library.
pub open spec fn library_summaries() -> Map<Seq<char>, SummaryModel> {
    Map::<Seq<char>, SummaryModel>::empty().insert(
        "malloc"@,
        library_summary("malloc"@, true, false, false),
    ).insert("calloc"@, library_summary("calloc"@, true, false, false)).insert(
        "strdup"@,
        library_summary("strdup"@, true, true, false),
    ).insert("system"@, library_summary("system"@, false, true, true)).insert(
        "popen"@,
        library_summary("popen"@, false, true, true),
    ).insert("scanf"@, library_summary("scanf"@, false, true, false)).insert(
        "gets"@,
        library_summary("gets"@, false, true, false),
    )
}

/// Whether a function gives what a user controls.
pub open spec fn reads_input(name: Seq<char>) -> bool {
    name == "scanf"@ || name == "fgets"@ || name == "read"@ || name == "recv"@
}

/// Whether a function hands a command to the system.
pub open spec fn runs_system(name: Seq<char>) -> bool {
    name == "system"@ || name == "popen"@ || name == "exec"@
}

/// Whether a node from `from` to `to` calls an allocator.
pub open spec fn body_allocates(t: TreeModel, from: int, to: int) -> bool {
    exists|j: int| from <= j < to && (#[trigger] called(t, j) matches Some(f) && allocator(f))
}

/// Whether a node from `from` to `to` calls a function that gives what a user controls.
pub open spec fn body_reads_input(t: TreeModel, from: int, to: int) -> bool {
    exists|j: int| from <= j < to && (#[trigger] called(t, j) matches Some(f) && reads_input(f))
}

/// Whether a node from `from` to `to` calls a function that hands a command to the system.
pub open spec fn body_runs_system(t: TreeModel, from: int, to: int) -> bool {
    exists|j: int| from <= j < to && (#[trigger] called(t, j) matches Some(f) && runs_system(f))
}

/// The name that a declarator declares: its own text where it is an identifier, that of what a
/// function declarator declares, and otherwise the first that one of its children gives.
pub open spec fn function_name(t: TreeModel, i: int) -> Seq<char>
    decreases t.len() - i, 1int, 0int,
{
    if t.is(i, "identifier"@) {
        t.text(i)
    } else if t.is(i, "function_declarator"@) {
        match t.field(i, "declarator"@) {
            Some(c) => if i < c < t.len() {
                function_name(t, c)
            } else {
                ""@
            },
            None => ""@,
        }
    } else {
        first_name(t, i, t.children(i))
    }
}

/// The first name that is not empty among those that nodes below `i` give.
pub open spec fn first_name(t: TreeModel, i: int, nodes: Seq<int>) -> Seq<char>
    decreases t.len() - i, 0int, nodes.len(),
{
    if nodes.len() == 0 || !(i < nodes[0] < t.len()) {
        ""@
    } else if function_name(t, nodes[0]).len() > 0 {
        function_name(t, nodes[0])
    } else {
        first_name(t, i, nodes.drop_first())
    }
}

/// The summary of the function that a node defines.
pub open spec fn defined(t: TreeModel, i: int) -> Option<SummaryModel> {
    if t.is(i, "function_definition"@) {
        match t.field(i, "declarator"@) {
            Some(d) => if function_name(t, d).len() > 0 {
                Some(
                    match t.field(i, "body"@) {
                        Some(b) => SummaryModel {
                            name: function_name(t, d),
                            returns_malloc: body_allocates(t, b, t.subtree_end(b)),
                            takes_user_input: body_reads_input(t, b, t.subtree_end(b)),
                            calls_system: body_runs_system(t, b, t.subtree_end(b)),
                        },
                        None => library_summary(function_name(t, d), false, false, false),
                    },
                )
            } else {
                None
            },
            None => None,
        }
    } else {
        None
    }
}

/// The summaries of the functions that the first `n` nodes define; a later definition takes the
/// place of an earlier one of the same name.
pub open spec fn local_summaries(t: TreeModel, n: int) -> Map<Seq<char>, SummaryModel>
    decreases n,
{
    if n <= 0 {
        Map::empty()
    } else {
        match defined(t, n - 1) {
            Some(s) => local_summaries(t, n - 1).insert(s.name, s),
            None => local_summaries(t, n - 1),
        }
    }
}

/// The summary of a function: that of the source, and where there is none that of the library.
pub open spec fn summary_of(
    name: Seq<char>,
    builtins: Map<Seq<char>, SummaryModel>,
    local_funcs: Map<Seq<char>, SummaryModel>,
) -> Option<SummaryModel> {
    if local_funcs.contains_key(name) {
        Some(local_funcs[name])
    } else if builtins.contains_key(name) {
        Some(builtins[name])
    } else {
        None
    }
}

/// Whether the result of a call is not assigned.
pub open spec fn result_dropped(t: TreeModel, i: int) -> bool {
    match t.parent(i) {
        Some(p) => !t.is(p, "assignment_expression"@) && !t.is(p, "init_declarator"@),
        None => false,
    }
}

/// What a call is reported as for what the function that it calls does.
pub open spec fn cross_findings(
    t: TreeModel,
    path: Seq<char>,
    i: int,
    builtins: Map<Seq<char>, SummaryModel>,
    local_funcs: Map<Seq<char>, SummaryModel>,
) -> Seq<FindingModel> {
    match called(t, i) {
        Some(name) => match summary_of(name, builtins, local_funcs) {
            Some(s) => reported(
                s.returns_malloc && result_dropped(t, i),
                t,
                path,
                i,
                Severity::High,
                "unchecked_malloc_return"@,
                name + " returns allocated memory but result not used"@,
                "Assign result and check for NULL"@,
                83,
            ) + reported(
                s.takes_user_input && s.calls_system,
                t,
                path,
                i,
                Severity::Critical,
                "tainted_system_call"@,
                name + " propagates user input to system call - command injection risk"@,
                "Sanitize input before passing to system functions"@,
                86,
            ),
            None => Seq::empty(),
        },
        None => Seq::empty(),
    }
}

/// What the nodes are reported as, node by node.
pub open spec fn cross_rule(
    t: TreeModel,
    path: Seq<char>,
    builtins: Map<Seq<char>, SummaryModel>,
    local_funcs: Map<Seq<char>, SummaryModel>,
) -> spec_fn(int) -> Seq<FindingModel> {
    |i: int| cross_findings(t, path, i, builtins, local_funcs)
}

/// What a source is reported as for what its functions do.
pub open spec fn cross_scan(
    t: TreeModel,
    path: Seq<char>,
    builtins: Map<Seq<char>, SummaryModel>,
) -> Seq<FindingModel> {
    gather(cross_rule(t, path, builtins, local_summaries(t, t.len())), t.len())
}

/// Looks at calls with what is known of the functions that they call.
pub struct CallGraphAnalyzer {
    pub function_summaries: Summaries,
}

impl CallGraphAnalyzer {
    /// Knows the functions of the C library.
    pub fn new() -> (r: CallGraphAnalyzer)
        ensures
            r.function_summaries@ == library_summaries(),
    {
        let mut summaries = Summaries::new();
        summaries.insert(Self::summary("malloc", true, false, false));
        summaries.insert(Self::summary("calloc", true, false, false));
        summaries.insert(Self::summary("strdup", true, true, false));
        summaries.insert(Self::summary("system", false, true, true));
        summaries.insert(Self::summary("popen", false, true, true));
        summaries.insert(Self::summary("scanf", false, true, false));
        summaries.insert(Self::summary("gets", false, true, false));
        CallGraphAnalyzer { function_summaries: summaries }
    }

    fn summary(
        name: &str,
        returns_malloc: bool,
        takes_user_input: bool,
        calls_system: bool,
    ) -> (r: FunctionSummary)
        ensures
            r@ == library_summary(name@, returns_malloc, takes_user_input, calls_system),
    {
        FunctionSummary { name: name.to_owned(), returns_malloc, takes_user_input, calls_system }
    }

    /// What a source is reported as: its functions are summed up first, then its calls looked at.
    pub fn analyze_file(&self, tree: &SyntaxTree, path: &str) -> (r: Vec<Finding>)
        ensures
            views(r@) == cross_scan(tree@, path@, self.function_summaries@),
    {
        let local_functions = Self::build_summaries(tree);
        let mut findings: Vec<Finding> = Vec::new();
        let n: usize = tree.len();
        let mut i: usize = 0;
        assert(views(findings@) =~= Seq::<FindingModel>::empty());
        while i < n
            invariant
                i <= n,
                n == tree@.len(),
                views(findings@) == gather(
                    cross_rule(tree@, path@, self.function_summaries@, local_functions@),
                    i as int,
                ),
            decreases n - i,
        {
            Self::check_cross_function_bugs(
                tree,
                path,
                i,
                &self.function_summaries,
                &local_functions,
                &mut findings,
            );
            i = i + 1;
        }
        findings
    }

    /// The summaries of the functions that a source defines.
    pub fn build_summaries(tree: &SyntaxTree) -> (r: Summaries)
        ensures
            r@ == local_summaries(tree@, tree@.len()),
    {
        let mut summaries = Summaries::new();
        let n: usize = tree.len();
        let mut i: usize = 0;
        while i < n
            invariant
                i <= n,
                n == tree@.len(),
                summaries@ == local_summaries(tree@, i as int),
            decreases n - i,
        {
            if let Some(summary) = Self::summarize(tree, i) {
                summaries.insert(summary);
            }
            i = i + 1;
        }
        summaries
    }

    fn summarize(tree: &SyntaxTree, i: usize) -> (r: Option<FunctionSummary>)
        requires
            i < tree@.len(),
        ensures
            match r {
                Some(s) => defined(tree@, i as int) == Some(s@),
                None => defined(tree@, i as int) is None,
            },
    {
        if !tree.is(i, "function_definition") {
            return None;
        }
        let d = match tree.child_by_field_name(i, "declarator") {
            Some(d) => d,
            None => return None,
        };
        let name = Self::extract_function_name(tree, d);
        proof {
            crate::text::lemma_no_bytes(name@);
        }
        if name.as_str().as_bytes().len() == 0 {
            return None;
        }
        match tree.child_by_field_name(i, "body") {
            Some(b) => Some(Self::analyze_body(tree, b, name)),
            None => Some(
                FunctionSummary {
                    name,
                    returns_malloc: false,
                    takes_user_input: false,
                    calls_system: false,
                },
            ),
        }
    }

    /// The summary of the function `name` with the body at the node `body`.
    pub fn analyze_body(tree: &SyntaxTree, body: usize, name: String) -> (r: FunctionSummary)
        requires
            body < tree@.len(),
        ensures
            r@ == (SummaryModel {
                name: name@,
                returns_malloc: body_allocates(
                    tree@,
                    body as int,
                    tree@.subtree_end(body as int),
                ),
                takes_user_input: body_reads_input(
                    tree@,
                    body as int,
                    tree@.subtree_end(body as int),
                ),
                calls_system: body_runs_system(
                    tree@,
                    body as int,
                    tree@.subtree_end(body as int),
                ),
            }),
    {
        let end: usize = tree.subtree_end(body);
        let mut returns_malloc = false;
        let mut takes_user_input = false;
        let mut calls_system = false;
        let mut j: usize = body;
        while j < end
            invariant
                body <= j <= end,
                end <= tree@.len(),
                returns_malloc == body_allocates(tree@, body as int, j as int),
                takes_user_input == body_reads_input(tree@, body as int, j as int),
                calls_system == body_runs_system(tree@, body as int, j as int),
            decreases end - j,
        {
            proof {
                lemma_body_step(tree@, body as int, j as int);
            }
            if let Some(f) = called_function(tree, j) {
                if is_allocator(f) {
                    returns_malloc = true;
                }
                if same(f, "scanf") || same(f, "fgets") || same(f, "read") || same(f, "recv") {
                    takes_user_input = true;
                }
                if same(f, "system") || same(f, "popen") || same(f, "exec") {
                    calls_system = true;
                }
            }
            j = j + 1;
        }
        FunctionSummary { name, returns_malloc, takes_user_input, calls_system }
    }

    /// Reports one call for what the function that it calls does.
    pub fn check_cross_function_bugs(
        tree: &SyntaxTree,
        path: &str,
        i: usize,
        builtins: &Summaries,
        local_funcs: &Summaries,
        findings: &mut Vec<Finding>,
    )
        requires
            i < tree@.len(),
        ensures
            views(final(findings)@) == views(old(findings)@) + cross_findings(
                tree@,
                path@,
                i as int,
                builtins@,
                local_funcs@,
            ),
    {
        let ghost before = views(findings@);
        if let Some(name) = called_function(tree, i) {
            let found = match local_funcs.get(name) {
                Some(s) => Some(s),
                None => builtins.get(name),
            };
            if let Some(s) = found {
                let dropped = match tree.parent(i) {
                    Some(p) => !tree.is(p, "assignment_expression") && !tree.is(
                        p,
                        "init_declarator",
                    ),
                    None => false,
                };
                let message = glue(name, " returns allocated memory but result not used");
                report_if(
                    findings,
                    s.returns_malloc && dropped,
                    tree,
                    path,
                    i,
                    Severity::High,
                    "unchecked_malloc_return",
                    &message,
                    "Assign result and check for NULL",
                    83,
                );
                let message = glue(
                    name,
                    " propagates user input to system call - command injection risk",
                );
                report_if(
                    findings,
                    s.takes_user_input && s.calls_system,
                    tree,
                    path,
                    i,
                    Severity::Critical,
                    "tainted_system_call",
                    &message,
                    "Sanitize input before passing to system functions",
                    86,
                );
                assert(views(findings@) =~= before + cross_findings(
                    tree@,
                    path@,
                    i as int,
                    builtins@,
                    local_funcs@,
                ));
            }
        }
    }

    /// The name that a declarator declares.
    pub fn extract_function_name(tree: &SyntaxTree, i: usize) -> (r: String)
        requires
            i < tree@.len(),
        ensures
            r@ == function_name(tree@, i as int),
        decreases tree@.len() - i,
    {
        if tree.is(i, "identifier") {
            return tree.text(i).to_owned();
        }
        if tree.is(i, "function_declarator") {
            return match tree.child_by_field_name(i, "declarator") {
                Some(c) => Self::extract_function_name(tree, c),
                None => "".to_owned(),
            };
        }
        let kids = tree.children(i);
        let ghost all = tree@.children(i as int);
        assert(all.skip(0) =~= all);
        let mut k: usize = 0;
        while k < kids.len()
            invariant
                k <= kids@.len(),
                i < tree@.len(),
                all == tree@.children(i as int),
                indices(kids@) == all,
                !tree@.is(i as int, "identifier"@),
                !tree@.is(i as int, "function_declarator"@),
                forall|j: int| 0 <= j < kids@.len() ==> i < #[trigger] kids@[j] < tree@.len(),
                first_name(tree@, i as int, all) == first_name(
                    tree@,
                    i as int,
                    all.skip(k as int),
                ),
            decreases kids@.len() - k,
        {
            let c: usize = kids[k];
            assert(indices(kids@)[k as int] == c);
            assert(all.skip(k as int)[0] == c);
            let name = Self::extract_function_name(tree, c);
            proof {
                crate::text::lemma_no_bytes(name@);
            }
            if name.as_str().as_bytes().len() > 0 {
                return name;
            }
            assert(all.skip(k as int).drop_first() =~= all.skip(k + 1));
            k = k + 1;
        }
        "".to_owned()
    }
}

/// What one more node adds to what a body does.
proof fn lemma_body_step(t: TreeModel, from: int, j: int)
    requires
        from <= j,
    ensures
        body_allocates(t, from, j + 1) == (body_allocates(t, from, j) || (called(
            t,
            j,
        ) matches Some(f) && allocator(f))),
        body_reads_input(t, from, j + 1) == (body_reads_input(t, from, j) || (called(
            t,
            j,
        ) matches Some(f) && reads_input(f))),
        body_runs_system(t, from, j + 1) == (body_runs_system(t, from, j) || (called(
            t,
            j,
        ) matches Some(f) && runs_system(f))),
{
    if body_allocates(t, from, j) {
        let k = choose|k: int|
            from <= k < j && (#[trigger] called(t, k) matches Some(f) && allocator(f));
        assert(from <= k < j + 1);
    }
    if body_reads_input(t, from, j) {
        let k = choose|k: int|
            from <= k < j && (#[trigger] called(t, k) matches Some(f) && reads_input(f));
        assert(from <= k < j + 1);
    }
    if body_runs_system(t, from, j) {
        let k = choose|k: int|
            from <= k < j && (#[trigger] called(t, k) matches Some(f) && runs_system(f));
        assert(from <= k < j + 1);
    }
}

/// A function that a source defines is known by what the source says of it, whatever the library
/// has under its name.
pub proof fn own_functions_win(
    name: Seq<char>,
    builtins: Map<Seq<char>, SummaryModel>,
    local_funcs: Map<Seq<char>, SummaryModel>,
)
    requires
        local_funcs.contains_key(name),
    ensures
        summary_of(name, builtins, local_funcs) == Some(local_funcs[name]),
{
}

/// Summaries are kept under the names of their functions.
pub proof fn summaries_are_kept_by_name(t: TreeModel, n: int, name: Seq<char>)
    requires
        local_summaries(t, n).contains_key(name),
    ensures
        local_summaries(t, n)[name].name == name,
        exists|i: int| 0 <= i < n && #[trigger] defined(t, i) == Some(local_summaries(t, n)[name]),
    decreases n,
{
    if n > 0 {
        match defined(t, n - 1) {
            Some(s) if s.name == name => {},
            _ => {
                summaries_are_kept_by_name(t, n - 1, name);
                let i = choose|i: int|
                    0 <= i < n - 1 && #[trigger] defined(t, i) == Some(
                        local_summaries(t, n - 1)[name],
                    );
                assert(0 <= i < n);
            },
        }
    }
}

/// Every call of a function that takes what a user controls and hands commands to the system is
/// reported.
pub proof fn dangerous_composition_is_reported(
    t: TreeModel,
    path: Seq<char>,
    i: int,
    builtins: Map<Seq<char>, SummaryModel>,
    local_funcs: Map<Seq<char>, SummaryModel>,
)
    requires
        called(t, i) matches Some(name) && (summary_of(name, builtins, local_funcs) matches Some(s)
            && s.takes_user_input && s.calls_system),
    ensures
        cross_findings(t, path, i, builtins, local_funcs).len() > 0,
        cross_findings(t, path, i, builtins, local_funcs).last().category
            == "tainted_system_call"@,
        cross_findings(t, path, i, builtins, local_funcs).last().severity == Severity::Critical,
{
}

} // verus!
