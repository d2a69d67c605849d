//! The checks on C and C++ sources that look at one place at a time.
use vstd::prelude::*;

use crate::finding::{
    add_found, finding_view, found, gather, views, Finding, FindingModel, Severity,
};
use crate::language::table;
use crate::outside::{alphanumeric, is_alphanumeric, lowercase, to_lowercase};
use crate::rule::{
    allocator, at_node, called, called_function, field_text, finding_at, finding_on, is_allocator,
    on_line, text_of_field,
};
use crate::syntax::{indices, SyntaxTree, TreeModel};
use crate::text::{
    begins_with, chars_of, contains, find_char, glue, glue3, mentions, is_integer, lemma_find_char,
    lines, lines_of, parses_as_integer, same, split_once, starts_with, texts, trim, trimmed,
};

verus! {

/// The checks on C and C++ sources.
pub struct Scanner;

/// The entry of a table for the function `name`, the first where there are several.
pub open spec fn entry(
    entries: Seq<(Seq<char>, Severity, Seq<char>)>,
    name: Seq<char>,
) -> Option<(Seq<char>, Severity, Seq<char>)>
    decreases entries.len(),
{
    if entries.len() == 0 {
        None
    } else if entries[0].0 == name {
        Some(entries[0])
    } else {
        entry(entries.drop_first(), name)
    }
}

/// What a call of a function of the table is reported as.
pub open spec fn watched_call(
    t: TreeModel,
    path: Seq<char>,
    i: int,
    entries: Seq<(Seq<char>, Severity, Seq<char>)>,
) -> Option<FindingModel> {
    match called(t, i) {
        Some(name) => match entry(entries, name) {
            Some(e) => Some(
                at_node(
                    t,
                    path,
                    i,
                    e.1,
                    "buffer_overflow"@,
                    "Dangerous function: "@ + name + " - no bounds checking"@,
                    e.2,
                    95,
                ),
            ),
            None => None,
        },
        None => None,
    }
}

/// The calls of functions of the table, node by node.
pub open spec fn watched_calls(
    t: TreeModel,
    path: Seq<char>,
    entries: Seq<(Seq<char>, Severity, Seq<char>)>,
) -> spec_fn(int) -> Seq<FindingModel> {
    |i: int| found(watched_call(t, path, i, entries))
}

/// The functions that write without knowing the size of what they write to.
pub open spec fn unbounded_functions() -> Seq<(Seq<char>, Severity, Seq<char>)> {
    seq![
        ("strcpy"@, Severity::Critical, "Use strncpy(dest, src, sizeof(dest)-1)"@),
        ("strcat"@, Severity::Critical, "Use strncat(dest, src, remaining)"@),
        ("sprintf"@, Severity::Critical, "Use snprintf(buf, sizeof(buf), ...)"@),
        ("gets"@, Severity::Critical, "Use fgets(buf, sizeof(buf), stdin)"@),
        ("wcscpy"@, Severity::Critical, "Use wcsncpy"@),
        ("memcpy"@, Severity::High, "Verify size <= destination buffer"@),
        ("memset"@, Severity::Medium, "Verify size is correct"@),
    ]
}

/// Whether an `if` statement follows the node directly.
pub open spec fn null_check_after(t: TreeModel, i: int) -> bool {
    match t.next_sibling(i) {
        Some(s) => t.is(s, "if_statement"@),
        None => false,
    }
}

/// What an allocation that no check follows is reported as.
pub open spec fn unchecked_allocation(
    t: TreeModel,
    path: Seq<char>,
    i: int,
) -> Option<FindingModel> {
    match called(t, i) {
        Some(name) => if allocator(name) && !null_check_after(t, i) {
            Some(
                at_node(
                    t,
                    path,
                    i,
                    Severity::High,
                    "null_dereference"@,
                    name + " return value not checked for NULL"@,
                    "Add 'if (!ptr) return/error' after allocation"@,
                    85,
                ),
            )
        } else {
            None
        },
        None => None,
    }
}

/// The unchecked allocations among the children of the root.
pub open spec fn unchecked_allocations(t: TreeModel, path: Seq<char>) -> spec_fn(
    int,
) -> Seq<FindingModel> {
    |k: int| found(unchecked_allocation(t, path, t.children(0)[k]))
}

/// What to use in place of a banned function.
pub open spec fn safe_alternative(name: Seq<char>) -> Seq<char> {
    if name == "gets"@ {
        "Use fgets(buf, sizeof(buf), stdin)"@
    } else if name == "strcpy"@ {
        "Use strncpy(dest, src, sizeof(dest)-1)"@
    } else if name == "strcat"@ {
        "Use strncat(dest, src, remaining_space)"@
    } else if name == "sprintf"@ {
        "Use snprintf(buf, sizeof(buf), fmt, ...)"@
    } else if name == "system"@ {
        "Use execve() with full path verification"@
    } else {
        "Use safer alternative"@
    }
}

/// The banned functions.
pub open spec fn banned(name: Seq<char>) -> bool {
    ||| name == "gets"@
    ||| name == "system"@
    ||| name == "popen"@
    ||| name == "strcpy"@
    ||| name == "strcat"@
    ||| name == "sprintf"@
}

/// What a call of a banned function is reported as.
pub open spec fn banned_call(t: TreeModel, path: Seq<char>, i: int) -> Option<FindingModel> {
    match called(t, i) {
        Some(name) => if banned(name) {
            Some(
                at_node(
                    t,
                    path,
                    i,
                    Severity::Critical,
                    "unsafe_function"@,
                    "Banned function: "@ + name + " - security risk"@,
                    safe_alternative(name),
                    98,
                ),
            )
        } else {
            None
        },
        None => None,
    }
}

/// The calls of banned functions among the children of the root.
pub open spec fn banned_calls(t: TreeModel, path: Seq<char>) -> spec_fn(int) -> Seq<FindingModel> {
    |k: int| found(banned_call(t, path, t.children(0)[k]))
}

/// Whether an operand is an integer with no known bound.
pub open spec fn unbounded_operand(t: TreeModel, operand: Option<int>) -> bool {
    match operand {
        Some(n) => t.is(n, "number_literal"@) || t.is(n, "identifier"@),
        None => false,
    }
}

/// What an operation on two unbounded integers is reported as.
pub open spec fn overflowing_operation(
    t: TreeModel,
    path: Seq<char>,
    i: int,
) -> Option<FindingModel> {
    if t.is(i, "binary_expression"@) {
        match field_text(t, i, "operator"@) {
            Some(op) => if (op == "*"@ || op == "+"@ || op == "<<"@) && unbounded_operand(
                t,
                t.field(i, "left"@),
            ) && unbounded_operand(t, t.field(i, "right"@)) {
                Some(
                    at_node(
                        t,
                        path,
                        i,
                        Severity::Medium,
                        "integer_overflow"@,
                        "Potential integer overflow in "@ + op + " operation"@,
                        "Add overflow check or use saturating arithmetic"@,
                        65,
                    ),
                )
            } else {
                None
            },
            None => None,
        }
    } else {
        None
    }
}

/// The operations on two unbounded integers among the children of the root.
pub open spec fn overflowing_operations(t: TreeModel, path: Seq<char>) -> spec_fn(
    int,
) -> Seq<FindingModel> {
    |k: int| found(overflowing_operation(t, path, t.children(0)[k]))
}

/// The functions that acquire a resource.
pub open spec fn acquires(name: Seq<char>) -> bool {
    ||| allocator(name)
    ||| name == "fopen"@
    ||| name == "socket"@
    ||| name == "open"@
}

/// The functions that release a resource.
pub open spec fn releases(name: Seq<char>) -> bool {
    name == "free"@ || name == "fclose"@ || name == "close"@
}

/// The variable to which the result of a call that acquires a resource is assigned.
pub open spec fn acquired(t: TreeModel, i: int) -> Option<Seq<char>> {
    match called(t, i) {
        Some(name) => if acquires(name) {
            match t.parent(i) {
                Some(p) => if t.is(p, "assignment_expression"@) {
                    field_text(t, p, "left"@)
                } else {
                    None
                },
                None => None,
            }
        } else {
            None
        },
        None => None,
    }
}

/// What a call that releases a resource names: the text of the first child of its arguments.
pub open spec fn released(t: TreeModel, i: int) -> Option<Seq<char>> {
    match called(t, i) {
        Some(name) => if !acquires(name) && releases(name) {
            match t.field(i, "arguments"@) {
                Some(args) => match t.first_child(args) {
                    Some(arg) => Some(t.text(arg)),
                    None => None,
                },
                None => None,
            }
        } else {
            None
        },
        None => None,
    }
}

/// Whether a child of the root releases `name`.
pub open spec fn released_somewhere(t: TreeModel, name: Seq<char>) -> bool {
    exists|k: int|
        0 <= k < t.children(0).len() && released(t, #[trigger] t.children(0)[k]) == Some(name)
}

/// What a resource that nothing releases is reported as.
pub open spec fn leak(t: TreeModel, path: Seq<char>, i: int) -> Option<FindingModel> {
    match acquired(t, i) {
        Some(name) => if !released_somewhere(t, name) {
            Some(
                on_line(
                    path,
                    t.place(i).0,
                    Severity::Medium,
                    "resource_leak"@,
                    "Potential resource leak: "@ + name + " not freed"@,
                    "Add cleanup in all exit paths"@,
                    70,
                ),
            )
        } else {
            None
        },
        None => None,
    }
}

/// The leaks among the children of the root.
pub open spec fn leaks(t: TreeModel, path: Seq<char>) -> spec_fn(int) -> Seq<FindingModel> {
    |k: int| found(leak(t, path, t.children(0)[k]))
}

/// Whether a path, in lower case, is that of a test, of generated code or of someone else's.
pub open spec fn test_or_generated(path: Seq<char>) -> bool {
    ||| mentions(path, "test"@)
    ||| mentions(path, "spec"@)
    ||| mentions(path, "_mock"@)
    ||| mentions(path, "generated"@)
    ||| mentions(path, "vendor/"@)
    ||| mentions(path, "deps/"@)
    ||| mentions(path, "third_party"@)
}

/// Whether a line is a comment or begins with a string literal.
pub open spec fn comment_or_literal(line: Seq<char>) -> bool {
    let t = trim(line);
    ||| begins_with(t, "//"@)
    ||| begins_with(t, "*"@)
    ||| begins_with(t, "/*"@)
    ||| begins_with(t, "\""@)
    ||| begins_with(t, "'"@)
}

/// Whether a line, in lower case, is a note about something unsafe that is left to do.
pub open spec fn security_note(lower: Seq<char>) -> bool {
    &&& mentions(lower, "todo"@)
    &&& mentions(lower, "security"@) || mentions(lower, "unsafe"@)
    &&& !mentions(lower, "\"security\""@)
    &&& !mentions(lower, "'security'"@)
}

/// Whether a character may stand on the left of an assignment.
pub open spec fn identifier_like(c: char) -> bool {
    alphanumeric(c) || c == '_' || c == ' ' || c == '[' || c == ']'
}

/// Whether a line assigns a string or a number to a variable: what stands before the first equals
/// sign looks like one, and what follows, up to a second equals sign, begins with a quote or is a
/// number.
pub open spec fn assignment_like(line: Seq<char>) -> bool {
    let k = find_char(line, '=');
    let rest = line.skip(k + 1);
    let left = trim(line.take(k));
    let right = trim(rest.take(find_char(rest, '=')));
    &&& k < line.len()
    &&& forall|i: int| 0 <= i < left.len() ==> identifier_like(#[trigger] left[i])
    &&& begins_with(right, "\""@) || begins_with(right, "'"@) || is_integer(right)
}

/// Whether a line, given with its lower case form, holds a password.
pub open spec fn credential(line: Seq<char>, lower: Seq<char>) -> bool {
    &&& mentions(lower, "password"@) || mentions(lower, "passwd"@) || mentions(lower, "pwd"@)
    &&& mentions(line, "="@)
    &&& !mentions(lower, "contains("@)
    &&& !mentions(lower, "'"@)
    &&& assignment_like(line)
}

/// What a line is reported as.
pub open spec fn line_findings(
    path: Seq<char>,
    number: nat,
    line: Seq<char>,
    lower: Seq<char>,
) -> Seq<FindingModel> {
    if comment_or_literal(line) {
        Seq::empty()
    } else {
        found(
            if security_note(lower) {
                Some(
                    on_line(
                        path,
                        number,
                        Severity::Medium,
                        "todo_security"@,
                        "TODO comment mentions security issue"@,
                        "Address before release"@,
                        80,
                    ),
                )
            } else {
                None
            },
        ) + found(
            if credential(line, lower) {
                Some(
                    on_line(
                        path,
                        number,
                        Severity::High,
                        "hardcoded_credential"@,
                        "Potential hardcoded password detected"@,
                        "Use environment variables or secure vault"@,
                        72,
                    ),
                )
            } else {
                None
            },
        )
    }
}

/// What the lines of a source are reported as, line by line.
pub open spec fn line_rule(path: Seq<char>, source: Seq<char>) -> spec_fn(int) -> Seq<
    FindingModel,
> {
    |i: int|
        line_findings(path, (i + 1) as nat, lines(source)[i], lowercase(lines(source)[i]))
}

/// What the lines of a source are reported as.
pub open spec fn pattern_findings(path: Seq<char>, source: Seq<char>) -> Seq<FindingModel> {
    if test_or_generated(lowercase(path)) {
        Seq::empty()
    } else {
        gather(line_rule(path, source), lines(source).len() as int)
    }
}

impl Scanner {
    /// The calls of functions that write without knowing how much room there is.
    pub fn check_buffer_overflows(tree: &SyntaxTree, path: &str) -> (r: Vec<Finding>)
        ensures
            views(r@) == gather(
                watched_calls(tree@, path@, unbounded_functions()),
                tree@.len(),
            ),
    {
        let entries: Vec<(&str, Severity, &str)> = vec![
            ("strcpy", Severity::Critical, "Use strncpy(dest, src, sizeof(dest)-1)"),
            ("strcat", Severity::Critical, "Use strncat(dest, src, remaining)"),
            ("sprintf", Severity::Critical, "Use snprintf(buf, sizeof(buf), ...)"),
            ("gets", Severity::Critical, "Use fgets(buf, sizeof(buf), stdin)"),
            ("wcscpy", Severity::Critical, "Use wcsncpy"),
            ("memcpy", Severity::High, "Verify size <= destination buffer"),
            ("memset", Severity::Medium, "Verify size is correct"),
        ];
        assert(table(entries@) =~= unbounded_functions());
        Self::find_calls_recursive(tree, path, &entries)
    }

    /// The calls of functions of a table, in the order of the source.
    pub fn find_calls_recursive(
        tree: &SyntaxTree,
        path: &str,
        dangerous: &Vec<(&str, Severity, &str)>,
    ) -> (r: Vec<Finding>)
        ensures
            views(r@) == gather(watched_calls(tree@, path@, table(dangerous@)), tree@.len()),
    {
        let mut findings: Vec<Finding> = Vec::new();
        let n: usize = tree.len();
        let mut i: usize = 0;
        assert(views(findings@) =~= Seq::<FindingModel>::empty());
        while i < n
            invariant
                i <= n,
                n == tree@.len(),
                views(findings@) == gather(
                    watched_calls(tree@, path@, table(dangerous@)),
                    i as int,
                ),
            decreases n - i,
        {
            let f = Self::watched(tree, path, i, dangerous);
            add_found(&mut findings, f);
            i = i + 1;
        }
        findings
    }

    fn watched(
        tree: &SyntaxTree,
        path: &str,
        i: usize,
        dangerous: &Vec<(&str, Severity, &str)>,
    ) -> (r: Option<Finding>)
        requires
            i < tree@.len(),
        ensures
            finding_view(r) == watched_call(tree@, path@, i as int, table(dangerous@)),
    {
        let name = match called_function(tree, i) {
            Some(name) => name,
            None => return None,
        };
        let mut k: usize = 0;
        let ghost whole = table(dangerous@);
        assert(whole.skip(0) =~= whole);
        while k < dangerous.len()
            invariant
                k <= dangerous@.len(),
                i < tree@.len(),
                whole == table(dangerous@),
                called(tree@, i as int) == Some(name@),
                entry(whole, name@) == entry(whole.skip(k as int), name@),
            decreases dangerous@.len() - k,
        {
            let e = dangerous[k];
            assert(whole.skip(k as int)[0] == (e.0@, e.1, e.2@));
            if same(name, e.0) {
                return Some(
                    finding_at(
                        tree,
                        path,
                        i,
                        e.1,
                        "buffer_overflow",
                        glue3("Dangerous function: ", name, " - no bounds checking"),
                        e.2.to_owned(),
                        95,
                    ),
                );
            }
            assert(whole.skip(k as int).drop_first() =~= whole.skip(k + 1));
            k = k + 1;
        }
        None
    }

    /// The allocations among the children of the root that no check for null follows.
    pub fn check_null_dereferences(tree: &SyntaxTree, path: &str) -> (r: Vec<Finding>)
        ensures
            views(r@) == gather(
                unchecked_allocations(tree@, path@),
                tree@.children(0).len() as int,
            ),
    {
        let mut findings: Vec<Finding> = Vec::new();
        let kids = tree.children(tree.root());
        let mut k: usize = 0;
        assert(views(findings@) =~= Seq::<FindingModel>::empty());
        while k < kids.len()
            invariant
                k <= kids@.len(),
                indices(kids@) == tree@.children(0),
                forall|j: int| 0 <= j < kids@.len() ==> 0 < #[trigger] kids@[j] < tree@.len(),
                views(findings@) == gather(unchecked_allocations(tree@, path@), k as int),
            decreases kids@.len() - k,
        {
            let i: usize = kids[k];
            assert(indices(kids@)[k as int] == i);
            let mut f: Option<Finding> = None;
            if let Some(name) = called_function(tree, i) {
                if is_allocator(name) && !Self::has_null_check_after(tree, i) {
                    f =
                    Some(
                        finding_at(
                            tree,
                            path,
                            i,
                            Severity::High,
                            "null_dereference",
                            glue(name, " return value not checked for NULL"),
                            "Add 'if (!ptr) return/error' after allocation".to_owned(),
                            85,
                        ),
                    );
                }
            }
            assert(finding_view(f) == unchecked_allocation(tree@, path@, i as int));
            add_found(&mut findings, f);
            k = k + 1;
        }
        findings
    }

    /// The calls of banned functions among the children of the root.
    pub fn check_unsafe_functions(tree: &SyntaxTree, path: &str) -> (r: Vec<Finding>)
        ensures
            views(r@) == gather(banned_calls(tree@, path@), tree@.children(0).len() as int),
    {
        let mut findings: Vec<Finding> = Vec::new();
        let kids = tree.children(tree.root());
        let mut k: usize = 0;
        assert(views(findings@) =~= Seq::<FindingModel>::empty());
        while k < kids.len()
            invariant
                k <= kids@.len(),
                indices(kids@) == tree@.children(0),
                forall|j: int| 0 <= j < kids@.len() ==> 0 < #[trigger] kids@[j] < tree@.len(),
                views(findings@) == gather(banned_calls(tree@, path@), k as int),
            decreases kids@.len() - k,
        {
            let i: usize = kids[k];
            assert(indices(kids@)[k as int] == i);
            let mut f: Option<Finding> = None;
            if let Some(name) = called_function(tree, i) {
                if same(name, "gets") || same(name, "system") || same(name, "popen") || same(
                    name,
                    "strcpy",
                ) || same(name, "strcat") || same(name, "sprintf") {
                    f =
                    Some(
                        finding_at(
                            tree,
                            path,
                            i,
                            Severity::Critical,
                            "unsafe_function",
                            glue3("Banned function: ", name, " - security risk"),
                            Self::suggest_safe_alternative(name),
                            98,
                        ),
                    );
                }
            }
            assert(finding_view(f) == banned_call(tree@, path@, i as int));
            add_found(&mut findings, f);
            k = k + 1;
        }
        findings
    }

    /// The operations on two unbounded integers among the children of the root.
    pub fn check_integer_overflows(tree: &SyntaxTree, path: &str) -> (r: Vec<Finding>)
        ensures
            views(r@) == gather(
                overflowing_operations(tree@, path@),
                tree@.children(0).len() as int,
            ),
    {
        let mut findings: Vec<Finding> = Vec::new();
        let kids = tree.children(tree.root());
        let mut k: usize = 0;
        assert(views(findings@) =~= Seq::<FindingModel>::empty());
        while k < kids.len()
            invariant
                k <= kids@.len(),
                indices(kids@) == tree@.children(0),
                forall|j: int| 0 <= j < kids@.len() ==> 0 < #[trigger] kids@[j] < tree@.len(),
                views(findings@) == gather(overflowing_operations(tree@, path@), k as int),
            decreases kids@.len() - k,
        {
            let i: usize = kids[k];
            assert(indices(kids@)[k as int] == i);
            let mut f: Option<Finding> = None;
            if tree.is(i, "binary_expression") {
                if let Some(op) = text_of_field(tree, i, "operator") {
                    if (same(op, "*") || same(op, "+") || same(op, "<<"))
                        && Self::is_unbounded_integer(tree, i, "left")
                        && Self::is_unbounded_integer(tree, i, "right") {
                        f =
                        Some(
                            finding_at(
                                tree,
                                path,
                                i,
                                Severity::Medium,
                                "integer_overflow",
                                glue3("Potential integer overflow in ", op, " operation"),
                                "Add overflow check or use saturating arithmetic".to_owned(),
                                65,
                            ),
                        );
                    }
                }
            }
            assert(finding_view(f) == overflowing_operation(tree@, path@, i as int));
            add_found(&mut findings, f);
            k = k + 1;
        }
        findings
    }

    /// The resources that a child of the root acquires and none releases.
    pub fn check_resource_leaks(tree: &SyntaxTree, path: &str) -> (r: Vec<Finding>)
        ensures
            views(r@) == gather(leaks(tree@, path@), tree@.children(0).len() as int),
    {
        let mut findings: Vec<Finding> = Vec::new();
        let kids = tree.children(tree.root());
        let freed = Self::released_names(tree, &kids);
        let mut k: usize = 0;
        assert(views(findings@) =~= Seq::<FindingModel>::empty());
        while k < kids.len()
            invariant
                k <= kids@.len(),
                indices(kids@) == tree@.children(0),
                forall|j: int| 0 <= j < kids@.len() ==> 0 < #[trigger] kids@[j] < tree@.len(),
                forall|name: Seq<char>|
                    released_somewhere(tree@, name) == #[trigger] texts(freed@).contains(name),
                views(findings@) == gather(leaks(tree@, path@), k as int),
            decreases kids@.len() - k,
        {
            let i: usize = kids[k];
            assert(indices(kids@)[k as int] == i);
            let mut f: Option<Finding> = None;
            if let Some(name) = Self::acquired_name(tree, i) {
                if !Self::listed(&freed, name) {
                    let (line, _column) = tree.place(i);
                    f =
                    Some(
                        finding_on(
                            path,
                            line,
                            Severity::Medium,
                            "resource_leak",
                            glue3("Potential resource leak: ", name, " not freed"),
                            "Add cleanup in all exit paths",
                            70,
                        ),
                    );
                }
            }
            assert(finding_view(f) == leak(tree@, path@, i as int));
            add_found(&mut findings, f);
            k = k + 1;
        }
        findings
    }

    fn acquired_name<'a>(tree: &SyntaxTree<'a>, i: usize) -> (r: Option<&'a str>)
        requires
            i < tree@.len(),
        ensures
            crate::rule::text_view(r) == acquired(tree@, i as int),
    {
        if let Some(name) = called_function(tree, i) {
            if is_allocator(name) || same(name, "fopen") || same(name, "socket") || same(
                name,
                "open",
            ) {
                if let Some(p) = tree.parent(i) {
                    if tree.is(p, "assignment_expression") {
                        return text_of_field(tree, p, "left");
                    }
                }
            }
        }
        None
    }

    fn released_name<'a>(tree: &SyntaxTree<'a>, i: usize) -> (r: Option<&'a str>)
        requires
            i < tree@.len(),
        ensures
            crate::rule::text_view(r) == released(tree@, i as int),
    {
        if let Some(name) = called_function(tree, i) {
            if is_allocator(name) || same(name, "fopen") || same(name, "socket") || same(
                name,
                "open",
            ) {
                return None;
            }
            if same(name, "free") || same(name, "fclose") || same(name, "close") {
                if let Some(args) = tree.child_by_field_name(i, "arguments") {
                    if let Some(arg) = tree.first_child(args) {
                        return Some(tree.text(arg));
                    }
                }
            }
        }
        None
    }

    fn released_names<'a>(tree: &SyntaxTree<'a>, kids: &Vec<usize>) -> (r: Vec<&'a str>)
        requires
            indices(kids@) == tree@.children(0),
            forall|j: int| 0 <= j < kids@.len() ==> 0 < #[trigger] kids@[j] < tree@.len(),
        ensures
            forall|name: Seq<char>|
                released_somewhere(tree@, name) == #[trigger] texts(r@).contains(name),
    {
        let mut out: Vec<&'a str> = Vec::new();
        let mut k: usize = 0;
        while k < kids.len()
            invariant
                k <= kids@.len(),
                indices(kids@) == tree@.children(0),
                forall|j: int| 0 <= j < kids@.len() ==> 0 < #[trigger] kids@[j] < tree@.len(),
                forall|j: int|
                    0 <= j < out@.len() ==> released_somewhere(
                        tree@,
                        #[trigger] texts(out@)[j],
                    ),
                forall|j: int|
                    0 <= j < k ==> match released(tree@, #[trigger] tree@.children(0)[j]) {
                        Some(name) => texts(out@).contains(name),
                        None => true,
                    },
            decreases kids@.len() - k,
        {
            let i: usize = kids[k];
            assert(indices(kids@)[k as int] == i);
            let ghost before = out@;
            if let Some(name) = Self::released_name(tree, i) {
                out.push(name);
                proof {
                    assert(texts(out@) =~= texts(before).push(name@));
                    assert(texts(out@)[before.len() as int] == name@);
                    assert(tree@.children(0)[k as int] == i);
                    assert(released_somewhere(tree@, name@));
                    assert forall|j: int| 0 <= j < out@.len() implies released_somewhere(
                        tree@,
                        #[trigger] texts(out@)[j],
                    ) by {
                        if j < before.len() {
                            assert(texts(out@)[j] == texts(before)[j]);
                        }
                    }
                    assert forall|j: int| 0 <= j < k + 1 implies match released(
                        tree@,
                        #[trigger] tree@.children(0)[j],
                    ) {
                        Some(name) => texts(out@).contains(name),
                        None => true,
                    } by {
                        if j < k {
                            if let Some(m) = released(tree@, tree@.children(0)[j]) {
                                let at = choose|at: int|
                                    0 <= at < texts(before).len() && texts(before)[at] == m;
                                assert(texts(out@)[at] == m);
                            }
                        }
                    }
                }
            }
            k = k + 1;
        }
        assert forall|name: Seq<char>|
            released_somewhere(tree@, name) == #[trigger] texts(out@).contains(name) by {
            if released_somewhere(tree@, name) {
                let j = choose|j: int|
                    0 <= j < tree@.children(0).len() && released(
                        tree@,
                        #[trigger] tree@.children(0)[j],
                    ) == Some(name);
                assert(j < kids@.len());
            }
        }
        out
    }

    fn listed(names: &Vec<&str>, name: &str) -> (r: bool)
        ensures
            r == texts(names@).contains(name@),
    {
        let mut k: usize = 0;
        while k < names.len()
            invariant
                k <= names@.len(),
                forall|j: int| 0 <= j < k ==> #[trigger] texts(names@)[j] != name@,
            decreases names@.len() - k,
        {
            assert(texts(names@)[k as int] == names@[k as int]@);
            if same(names[k], name) {
                return true;
            }
            k = k + 1;
        }
        false
    }

    /// The lines that hold a note on security or a password.
    pub fn check_dangerous_patterns_regex(source: &str, path: &str) -> (r: Vec<Finding>)
        ensures
            views(r@) == pattern_findings(path@, source@),
    {
        let mut findings: Vec<Finding> = Vec::new();
        assert(views(findings@) =~= Seq::<FindingModel>::empty());
        let lower_path = to_lowercase(path);
        if Self::is_test_or_generated_file(&lower_path) {
            return findings;
        }
        let all = lines_of(source);
        let mut i: usize = 0;
        while i < all.len()
            invariant
                i <= all@.len(),
                texts(all@) == lines(source@),
                views(findings@) == gather(line_rule(path@, source@), i as int),
            decreases all@.len() - i,
        {
            let line = all[i];
            assert(texts(all@)[i as int] == line@);
            let lower = to_lowercase(line);
            Self::check_line(path, i + 1, line, &lower, &mut findings);
            i = i + 1;
        }
        findings
    }

    /// What one line is reported as, given with its lower case form.
    pub fn check_line(
        path: &str,
        number: usize,
        line: &str,
        lower: &str,
        findings: &mut Vec<Finding>,
    )
        ensures
            views(final(findings)@) == views(old(findings)@) + line_findings(
                path@,
                number as nat,
                line@,
                lower@,
            ),
    {
        let t = trimmed(line);
        if starts_with(t, "//") || starts_with(t, "*") || starts_with(t, "/*") || starts_with(
            t,
            "\"",
        ) || starts_with(t, "'") {
            assert(views(findings@) + Seq::<FindingModel>::empty() =~= views(findings@));
            return;
        }
        let mut note: Option<Finding> = None;
        if contains(lower, "todo") && (contains(lower, "security") || contains(lower, "unsafe"))
            && !contains(lower, "\"security\"") && !contains(lower, "'security'") {
            note =
            Some(
                finding_on(
                    path,
                    number,
                    Severity::Medium,
                    "todo_security",
                    "TODO comment mentions security issue".to_owned(),
                    "Address before release",
                    80,
                ),
            );
        }
        let mut password: Option<Finding> = None;
        if (contains(lower, "password") || contains(lower, "passwd") || contains(lower, "pwd"))
            && contains(line, "=") && !contains(lower, "contains(") && !contains(lower, "'")
            && Self::looks_like_assignment(line) {
            password =
            Some(
                finding_on(
                    path,
                    number,
                    Severity::High,
                    "hardcoded_credential",
                    "Potential hardcoded password detected".to_owned(),
                    "Use environment variables or secure vault",
                    72,
                ),
            );
        }
        let ghost one = found(finding_view(note));
        let ghost two = found(finding_view(password));
        let ghost before = views(findings@);
        add_found(findings, note);
        add_found(findings, password);
        assert(before + one + two =~= before + (one + two));
    }

    /// Whether a path, in lower case, is that of a test, of generated code or of someone else's.
    pub fn is_test_or_generated_file(path: &str) -> (r: bool)
        ensures
            r == test_or_generated(path@),
    {
        contains(path, "test") || contains(path, "spec") || contains(path, "_mock") || contains(
            path,
            "generated",
        ) || contains(path, "vendor/") || contains(path, "deps/") || contains(path, "third_party")
    }

    /// Whether a line assigns a string or a number to a variable.
    pub fn looks_like_assignment(line: &str) -> (r: bool)
        ensures
            r == assignment_like(line@),
    {
        proof {
            lemma_find_char(line@, '=');
        }
        match split_once(line, 61) {
            Some((before, rest)) => {
                let left = trimmed(before);
                let value = match split_once(rest, 61) {
                    Some((v, _more)) => v,
                    None => rest,
                };
                proof {
                    lemma_find_char(rest@, '=');
                    assert(value@ =~= rest@.take(find_char(rest@, '=')));
                }
                let right = trimmed(value);
                Self::all_identifier_like(left) && (starts_with(right, "\"") || starts_with(
                    right,
                    "'",
                ) || parses_as_integer(right))
            },
            None => false,
        }
    }

    fn all_identifier_like(text: &str) -> (r: bool)
        ensures
            r == (forall|i: int| 0 <= i < text@.len() ==> identifier_like(#[trigger] text@[i])),
    {
        let chars = chars_of(text);
        let mut i: usize = 0;
        while i < chars.len()
            invariant
                i <= chars@.len(),
                chars@ == text@,
                forall|j: int| 0 <= j < i ==> identifier_like(#[trigger] text@[j]),
            decreases chars@.len() - i,
        {
            let c = chars[i];
            assert(c == text@[i as int]);
            if !(is_alphanumeric(c) || c == '_' || c == ' ' || c == '[' || c == ']') {
                return false;
            }
            i = i + 1;
        }
        true
    }

    /// Whether an `if` statement follows the node directly.
    pub fn has_null_check_after(tree: &SyntaxTree, i: usize) -> (r: bool)
        requires
            i < tree@.len(),
        ensures
            r == null_check_after(tree@, i as int),
    {
        match tree.next_sibling(i) {
            Some(s) => tree.is(s, "if_statement"),
            None => false,
        }
    }

    /// Whether the operand in the field `name` is an integer with no known bound.
    pub fn is_unbounded_integer(tree: &SyntaxTree, i: usize, name: &str) -> (r: bool)
        requires
            i < tree@.len(),
        ensures
            r == unbounded_operand(tree@, tree@.field(i as int, name@)),
    {
        match tree.child_by_field_name(i, name) {
            Some(n) => tree.is(n, "number_literal") || tree.is(n, "identifier"),
            None => false,
        }
    }

    /// What to use in place of a banned function.
    pub fn suggest_safe_alternative(name: &str) -> (r: String)
        ensures
            r@ == safe_alternative(name@),
    {
        if same(name, "gets") {
            "Use fgets(buf, sizeof(buf), stdin)".to_owned()
        } else if same(name, "strcpy") {
            "Use strncpy(dest, src, sizeof(dest)-1)".to_owned()
        } else if same(name, "strcat") {
            "Use strncat(dest, src, remaining_space)".to_owned()
        } else if same(name, "sprintf") {
            "Use snprintf(buf, sizeof(buf), fmt, ...)".to_owned()
        } else if same(name, "system") {
            "Use execve() with full path verification".to_owned()
        } else {
            "Use safer alternative".to_owned()
        }
    }
}

} // verus!
