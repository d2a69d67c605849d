//! Casts and unchecked results in C and C++ sources.
use vstd::prelude::*;

use crate::dataflow::{arguments, DataFlowAnalyzer};
use crate::finding::{extend, gather, views, Finding, FindingModel, Severity};
use crate::rule::{allocator, field_text, is_allocator, report_if, reported, text_of_field};
use crate::syntax::{indices, SyntaxTree, TreeModel};
use crate::text::{contains, glue, is_integer, mentions, parses_as_integer, same};

verus! {

/// What a part of the size that is allocated is reported as.
pub open spec fn sizeof_finding(t: TreeModel, path: Seq<char>, i: int, arg: int) -> Seq<
    FindingModel,
> {
    reported(
        t.is(arg, "binary_expression"@) && mentions(t.text(arg), "sizeof"@),
        t,
        path,
        i,
        Severity::Medium,
        "malloc_sizeof"@,
        "Verify sizeof matches pointer type"@,
        "Use sizeof(*ptr) instead of sizeof(type)"@,
        60,
    )
}

/// What the parts of the size that is allocated are reported as, one by one.
pub open spec fn sizeof_rule(t: TreeModel, path: Seq<char>, i: int) -> spec_fn(int) -> Seq<
    FindingModel,
> {
    |k: int| sizeof_finding(t, path, i, arguments(t, i)[k])
}

/// Whether the result of a call stands, without a cast, below something that is itself a part.
pub open spec fn result_uncast(t: TreeModel, i: int) -> bool {
    match t.parent(i) {
        Some(p) => !t.is(p, "cast_expression"@) && t.parent(p) is Some,
        None => false,
    }
}

/// The functions whose result tells whether they failed.
pub open spec fn result_counts(name: Seq<char>) -> bool {
    ||| name == "fopen"@
    ||| name == "socket"@
    ||| name == "accept"@
    ||| name == "mmap"@
    ||| name == "pthread_create"@
}

/// Whether the result of a call is neither assigned nor compared.
pub open spec fn result_unused(t: TreeModel, i: int) -> bool {
    match t.parent(i) {
        Some(p) => !t.is(p, "assignment_expression"@) && !t.is(p, "init_declarator"@) && !t.is(
            p,
            "binary_expression"@,
        ),
        None => false,
    }
}

/// Whether a text holds a cast to a pointer to void or to characters.
pub open spec fn raw_pointer_cast(text: Seq<char>) -> bool {
    mentions(text, "(void*)"@) || mentions(text, "(char*)"@)
}

/// Whether the result of a call is cast to such a pointer.
pub open spec fn result_cast(t: TreeModel, i: int) -> bool {
    match t.parent(i) {
        Some(p) => t.is(p, "cast_expression"@) && raw_pointer_cast(t.text(p)),
        None => false,
    }
}

/// What a cast to a pointer is reported as.
pub open spec fn pointer_cast(cond: bool, t: TreeModel, path: Seq<char>, i: int) -> Seq<
    FindingModel,
> {
    reported(
        cond,
        t,
        path,
        i,
        Severity::High,
        "integer_to_pointer"@,
        "Integer cast to pointer - potential security issue"@,
        "Use intptr_t/uintptr_t for integer-pointer conversions"@,
        87,
    )
}

/// What a call of `name` is reported as.
pub open spec fn type_call_findings(t: TreeModel, path: Seq<char>, i: int, name: Seq<char>) -> Seq<
    FindingModel,
> {
    (if allocator(name) && result_uncast(t, i) {
        gather(sizeof_rule(t, path, i), arguments(t, i).len() as int)
    } else {
        Seq::empty()
    }) + reported(
        result_counts(name) && result_unused(t, i),
        t,
        path,
        i,
        Severity::High,
        "unchecked_return"@,
        name + " return value not checked"@,
        "Assign to variable and check for error"@,
        85,
    ) + pointer_cast(allocator(name) && result_cast(t, i), t, path, i)
}

/// Whether what a cast is applied to is a number.
pub open spec fn casts_number(t: TreeModel, i: int) -> bool {
    match field_text(t, i, "value"@) {
        Some(text) => is_integer(text),
        None => false,
    }
}

/// What a node is reported as.
pub open spec fn type_findings(t: TreeModel, path: Seq<char>, i: int) -> Seq<FindingModel> {
    if t.is(i, "call_expression"@) {
        match field_text(t, i, "function"@) {
            Some(name) => type_call_findings(t, path, i, name),
            None => Seq::empty(),
        }
    } else {
        pointer_cast(
            t.is(i, "cast_expression"@) && raw_pointer_cast(t.text(i)) && casts_number(t, i),
            t,
            path,
            i,
        )
    }
}

/// What the nodes are reported as, node by node.
pub open spec fn type_rule(t: TreeModel, path: Seq<char>) -> spec_fn(int) -> Seq<FindingModel> {
    |i: int| type_findings(t, path, i)
}

/// Looks for casts and unchecked results.
pub struct TypeAwareChecker;

impl TypeAwareChecker {
    /// The casts and the unchecked results of a source.
    pub fn analyze(tree: &SyntaxTree, path: &str) -> (r: Vec<Finding>)
        ensures
            views(r@) == gather(type_rule(tree@, path@), tree@.len()),
    {
        let mut findings: Vec<Finding> = Vec::new();
        let n: usize = tree.len();
        let mut i: usize = 0;
        assert(views(findings@) =~= Seq::<FindingModel>::empty());
        while i < n
            invariant
                i <= n,
                n == tree@.len(),
                views(findings@) == gather(type_rule(tree@, path@), i as int),
            decreases n - i,
        {
            Self::check_types(tree, path, i, &mut findings);
            i = i + 1;
        }
        findings
    }

    /// Reports one node.
    pub fn check_types(tree: &SyntaxTree, path: &str, i: usize, findings: &mut Vec<Finding>)
        requires
            i < tree@.len(),
        ensures
            views(final(findings)@) == views(old(findings)@) + type_findings(
                tree@,
                path@,
                i as int,
            ),
    {
        if tree.is(i, "call_expression") {
            if let Some(name) = text_of_field(tree, i, "function") {
                extend(findings, Self::check_call(tree, path, i, name));
            }
        } else {
            let number = match text_of_field(tree, i, "value") {
                Some(text) => parses_as_integer(text),
                None => false,
            };
            let cast = tree.is(i, "cast_expression") && Self::is_raw_pointer_cast(tree.text(i))
                && number;
            Self::report_cast(cast, tree, path, i, findings);
        }
    }

    fn report_cast(
        cond: bool,
        tree: &SyntaxTree,
        path: &str,
        i: usize,
        findings: &mut Vec<Finding>,
    )
        requires
            i < tree@.len(),
        ensures
            views(final(findings)@) == views(old(findings)@) + pointer_cast(
                cond,
                tree@,
                path@,
                i as int,
            ),
    {
        report_if(
            findings,
            cond,
            tree,
            path,
            i,
            Severity::High,
            "integer_to_pointer",
            "Integer cast to pointer - potential security issue",
            "Use intptr_t/uintptr_t for integer-pointer conversions",
            87,
        );
    }

    fn is_raw_pointer_cast(text: &str) -> (r: bool)
        ensures
            r == raw_pointer_cast(text@),
    {
        contains(text, "(void*)") || contains(text, "(char*)")
    }

    fn check_call(tree: &SyntaxTree, path: &str, i: usize, name: &str) -> (r: Vec<Finding>)
        requires
            i < tree@.len(),
        ensures
            views(r@) == type_call_findings(tree@, path@, i as int, name@),
    {
        let mut findings: Vec<Finding> = Vec::new();
        assert(views(findings@) =~= Seq::<FindingModel>::empty());
        let parent = tree.parent(i);
        let uncast = match parent {
            Some(p) => !tree.is(p, "cast_expression") && tree.parent(p).is_some(),
            None => false,
        };
        if is_allocator(name) && uncast {
            findings = Self::check_sizes(tree, path, i);
        }
        let unused = match parent {
            Some(p) => !tree.is(p, "assignment_expression") && !tree.is(p, "init_declarator")
                && !tree.is(p, "binary_expression"),
            None => false,
        };
        let message = glue(name, " return value not checked");
        let counts = same(name, "fopen") || same(name, "socket") || same(name, "accept") || same(
            name,
            "mmap",
        ) || same(name, "pthread_create");
        report_if(
            &mut findings,
            counts && unused,
            tree,
            path,
            i,
            Severity::High,
            "unchecked_return",
            &message,
            "Assign to variable and check for error",
            85,
        );
        let cast = match parent {
            Some(p) => tree.is(p, "cast_expression") && Self::is_raw_pointer_cast(tree.text(p)),
            None => false,
        };
        Self::report_cast(is_allocator(name) && cast, tree, path, i, &mut findings);
        findings
    }

    fn check_sizes(tree: &SyntaxTree, path: &str, i: usize) -> (r: Vec<Finding>)
        requires
            i < tree@.len(),
        ensures
            views(r@) == gather(
                sizeof_rule(tree@, path@, i as int),
                arguments(tree@, i as int).len() as int,
            ),
    {
        let args = DataFlowAnalyzer::argument_parts(tree, i);
        let mut findings: Vec<Finding> = Vec::new();
        assert(views(findings@) =~= Seq::<FindingModel>::empty());
        let mut k: usize = 0;
        while k < args.len()
            invariant
                k <= args@.len(),
                i < tree@.len(),
                indices(args@) == arguments(tree@, i as int),
                forall|j: int| 0 <= j < args@.len() ==> #[trigger] args@[j] < tree@.len(),
                views(findings@) == gather(sizeof_rule(tree@, path@, i as int), k as int),
            decreases args@.len() - k,
        {
            let arg: usize = args[k];
            assert(indices(args@)[k as int] == arg);
            report_if(
                &mut findings,
                tree.is(arg, "binary_expression") && contains(tree.text(arg), "sizeof"),
                tree,
                path,
                i,
                Severity::Medium,
                "malloc_sizeof",
                "Verify sizeof matches pointer type",
                "Use sizeof(*ptr) instead of sizeof(type)",
                60,
            );
            k = k + 1;
        }
        findings
    }
}

} // verus!
