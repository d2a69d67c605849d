//! Data flow in C and C++ sources: what is known of each variable at each place.
use vstd::hash_map::StringHashMap;
use vstd::prelude::*;

use crate::finding::{
    add_found, finding_view, found, gather, lemma_gathered, lemma_in_left, lemma_in_right, views,
    Finding, FindingModel, Severity,
};
use crate::outside::{alphanumeric, is_alphanumeric, white_space};
use crate::rule::{
    at_node, called, called_function, field_text, finding_at, is_punctuation, punctuation,
    text_of_field, text_view,
};
use crate::syntax::{indices, lemma_field_after, SyntaxTree, TreeModel};
use crate::text::{
    bare, bare_text, before_text, chars_of, contains, find_char, find_text, glue, glue3,
    lemma_find_char, lemma_find_char_unique, lemma_trim_keeps, mentions, same, split_once, trim,
    trimmed,
};

verus! {

/// What is known of a variable.
#[derive(Clone, Copy, Debug, PartialEq, Eq, Structural)]
pub enum VarState {
    Uninitialized,
    Allocated,
    Null,
    Freed,
    Checked,
    Unknown,
}

/// What is known of the variables, by their names.
pub struct DataFlowState {
    variables: StringHashMap<VarState>,
}

impl View for DataFlowState {
    type V = Map<Seq<char>, VarState>;

    closed spec fn view(&self) -> Map<Seq<char>, VarState> {
        self.variables@
    }
}

/// Whether the variable is known to be freed.
pub open spec fn freed_in(vars: Map<Seq<char>, VarState>, name: Seq<char>) -> bool {
    vars.contains_key(name) && vars[name] == VarState::Freed
}

/// Whether the variable is known to be null or not to be initialized.
pub open spec fn null_in(vars: Map<Seq<char>, VarState>, name: Seq<char>) -> bool {
    vars.contains_key(name) && (vars[name] == VarState::Null || vars[name]
        == VarState::Uninitialized)
}

/// Whether the variable is known to be checked.
pub open spec fn checked_in(vars: Map<Seq<char>, VarState>, name: Seq<char>) -> bool {
    vars.contains_key(name) && vars[name] == VarState::Checked
}

impl DataFlowState {
    /// Nothing is known.
    pub fn new() -> (r: DataFlowState)
        ensures
            r@ == Map::<Seq<char>, VarState>::empty(),
    {
        DataFlowState { variables: StringHashMap::new() }
    }

    /// The variable is declared, and not initialized.
    pub fn declare_variable(&mut self, name: String, _type: String)
        ensures
            final(self)@ == old(self)@.insert(name@, VarState::Uninitialized),
    {
        self.variables.insert(name, VarState::Uninitialized);
    }

    /// The variable points to memory that was allocated.
    pub fn mark_allocated(&mut self, name: String)
        ensures
            final(self)@ == old(self)@.insert(name@, VarState::Allocated),
    {
        self.variables.insert(name, VarState::Allocated);
    }

    /// The variable is null.
    pub fn mark_null(&mut self, name: String)
        ensures
            final(self)@ == old(self)@.insert(name@, VarState::Null),
    {
        self.variables.insert(name, VarState::Null);
    }

    /// The variable points to memory that was freed.
    pub fn mark_freed(&mut self, name: String)
        ensures
            final(self)@ == old(self)@.insert(name@, VarState::Freed),
    {
        self.variables.insert(name, VarState::Freed);
    }

    /// The variable was compared with null.
    pub fn mark_checked(&mut self, name: String)
        ensures
            final(self)@ == old(self)@.insert(name@, VarState::Checked),
    {
        self.variables.insert(name, VarState::Checked);
    }

    /// Whether the variable is known to be freed.
    pub fn is_freed(&self, name: &str) -> (r: bool)
        ensures
            r == freed_in(self@, name@),
    {
        match self.variables.get(name) {
            Some(state) => *state == VarState::Freed,
            None => false,
        }
    }

    /// Whether the variable is known to be null or not to be initialized.
    pub fn is_null(&self, name: &str) -> (r: bool)
        ensures
            r == null_in(self@, name@),
    {
        match self.variables.get(name) {
            Some(state) => *state == VarState::Null || *state == VarState::Uninitialized,
            None => false,
        }
    }

    /// Whether the variable is known to be checked.
    pub fn is_checked(&self, name: &str) -> (r: bool)
        ensures
            r == checked_in(self@, name@),
    {
        match self.variables.get(name) {
            Some(state) => *state == VarState::Checked,
            None => false,
        }
    }
}

/// What is known after `writes`, made one after the other.
pub open spec fn after_writes(
    vars: Map<Seq<char>, VarState>,
    writes: Seq<(Seq<char>, VarState)>,
) -> Map<Seq<char>, VarState>
    decreases writes.len(),
{
    if writes.len() == 0 {
        vars
    } else {
        after_writes(vars, writes.drop_last()).insert(writes.last().0, writes.last().1)
    }
}

/// The text of the first node of a list that is an identifier; empty where there is none.
pub open spec fn first_identifier(t: TreeModel, nodes: Seq<int>) -> Seq<char>
    decreases nodes.len(),
{
    if nodes.len() == 0 {
        ""@
    } else if t.is(nodes[0], "identifier"@) {
        t.text(nodes[0])
    } else {
        first_identifier(t, nodes.drop_first())
    }
}

/// The name that a node stands for: its text where it is an identifier, and that of its first
/// child that is one otherwise.
pub open spec fn identifier(t: TreeModel, i: int) -> Seq<char> {
    if t.is(i, "identifier"@) {
        t.text(i)
    } else {
        first_identifier(t, t.children(i))
    }
}

/// The text of the type of a declaration; empty where it has none.
pub open spec fn declared_type(t: TreeModel, i: int) -> Seq<char> {
    match field_text(t, i, "type"@) {
        Some(text) => text,
        None => ""@,
    }
}

/// Whether a declaration gives its variable a value.
pub open spec fn initialized(t: TreeModel, i: int) -> bool {
    exists|k: int|
        0 <= k < t.children(i).len() && (t.is(#[trigger] t.children(i)[k], "="@) || t.is(
            t.children(i)[k],
            "init_declarator"@,
        ))
}

/// Whether a text calls one of the allocators.
pub open spec fn allocates(text: Seq<char>) -> bool {
    mentions(text, "malloc"@) || mentions(text, "calloc"@) || mentions(text, "realloc"@)
}

/// What stands between the first opening and the first closing parenthesis of a text.
pub open spec fn freed_name(text: Seq<char>) -> Option<Seq<char>> {
    let from = find_char(text, '(');
    let to = find_char(text, ')');
    if from < text.len() && to < text.len() && trim(text.subrange(from + 1, to)).len() > 0 {
        Some(trim(text.subrange(from + 1, to)))
    } else {
        None
    }
}

/// Whether a closing parenthesis comes in a text before the first opening one.
pub open spec fn reversed_parentheses(text: Seq<char>) -> bool {
    find_char(text, ')') < find_char(text, '(') < text.len()
}

/// Whether a text is a name: letters, digits and underscores, and no digit first.
pub open spec fn variable_like(text: Seq<char>) -> bool {
    &&& text.len() > 0
    &&& !('0' <= text[0] <= '9')
    &&& forall|i: int| 0 <= i < text.len() ==> alphanumeric(#[trigger] text[i]) || text[i] == '_'
}

/// The name that a condition shows not to be null: what stands before the first `!=` of one that
/// compares with null or with zero, and the condition itself where it is a name; both without the
/// parentheses round them.
pub open spec fn checked_name(text: Seq<char>) -> Option<Seq<char>> {
    if (mentions(text, "!= NULL"@) || mentions(text, "!= 0"@)) && mentions(text, "!="@) {
        Some(bare(text.take(find_text(text, "!="@))))
    } else if variable_like(bare(text)) {
        Some(bare(text))
    } else {
        None
    }
}

/// The two sides of an assignment, where it has both.
pub open spec fn assigned(t: TreeModel, i: int) -> Option<(int, int)> {
    if t.is(i, "assignment_expression"@) {
        match (t.field(i, "left"@), t.field(i, "right"@)) {
            (Some(left), Some(right)) => Some((left, right)),
            _ => None,
        }
    } else {
        None
    }
}

/// Whether the node can be read: it is no assignment of a call of `free` in which a closing
/// parenthesis comes before the first opening one.
pub open spec fn readable(t: TreeModel, i: int) -> bool {
    match assigned(t, i) {
        Some((left, right)) => mentions(t.text(right), "free("@) ==> !reversed_parentheses(
            t.text(right),
        ),
        None => true,
    }
}

/// Whether all nodes can be read.
pub open spec fn all_readable(t: TreeModel) -> bool {
    forall|i: int| 0 <= i < t.len() ==> #[trigger] readable(t, i)
}

/// One write, where `cond` holds.
pub open spec fn write_if(cond: bool, name: Seq<char>, state: VarState) -> Seq<
    (Seq<char>, VarState),
> {
    if cond {
        seq![(name, state)]
    } else {
        Seq::empty()
    }
}

/// What an assignment of `rhs` to `name` says of variables.
pub open spec fn assignment_writes(name: Seq<char>, rhs: Seq<char>) -> Seq<(Seq<char>, VarState)> {
    write_if(allocates(rhs), name, VarState::Allocated) + write_if(
        null_value(rhs),
        name,
        VarState::Null,
    ) + (match freed_name(rhs) {
        Some(freed) => write_if(mentions(rhs, "free("@), freed, VarState::Freed),
        None => Seq::empty(),
    })
}

/// What a call of `free` says of the first `n` children of its arguments.
pub open spec fn free_writes(t: TreeModel, args: Seq<int>, n: int) -> Seq<(Seq<char>, VarState)>
    decreases n,
{
    if n <= 0 {
        Seq::empty()
    } else {
        free_writes(t, args, n - 1) + write_if(
            !punctuation(t, args[n - 1]),
            t.text(args[n - 1]),
            VarState::Freed,
        )
    }
}

/// The parts of the arguments of a call.
pub open spec fn arguments(t: TreeModel, i: int) -> Seq<int> {
    match t.field(i, "arguments"@) {
        Some(args) => t.children(args),
        None => Seq::empty(),
    }
}

/// Whether a text is null.
pub open spec fn null_value(text: Seq<char>) -> bool {
    trim(text) == "NULL"@ || trim(text) == "0"@
}

/// The declarator within a declarator that gives its variable a value.
pub open spec fn initialized_declarator(t: TreeModel, d: int) -> Option<int> {
    if t.is(d, "init_declarator"@) {
        t.field(d, "declarator"@)
    } else {
        None
    }
}

/// The variable that the node `i` declares with the declarator `d`, which gives it no value.
pub open spec fn declared_name(t: TreeModel, i: int, d: int) -> Seq<char> {
    match pointed_name(t, d) {
        Some(name) => if t.is(i, "declaration"@) {
            name
        } else {
            identifier(t, d)
        },
        None => identifier(t, d),
    }
}

/// What a declaration with the declarator `d` says of variables. A variable is not initialized,
/// except that a pointer with a value is null where the value is; of any other value nothing is
/// known.
pub open spec fn declaration_writes(t: TreeModel, i: int, d: int) -> Seq<(Seq<char>, VarState)> {
    match initialized_declarator(t, d) {
        Some(inner) => if t.is(inner, "identifier"@) {
            seq![(t.text(inner), VarState::Uninitialized)]
        } else {
            match (pointed_name(t, inner), field_text(t, d, "value"@)) {
                (Some(name), Some(value)) => write_if(null_value(value), name, VarState::Null),
                _ => Seq::empty(),
            }
        },
        None => seq![(declared_name(t, i, d), VarState::Uninitialized)],
    }
}

/// What a node says of variables.
pub open spec fn writes(t: TreeModel, i: int) -> Seq<(Seq<char>, VarState)> {
    if t.is(i, "declaration"@) || t.is(i, "parameter_declaration"@) {
        match t.field(i, "declarator"@) {
            Some(d) => declaration_writes(t, i, d),
            None => Seq::empty(),
        }
    } else if t.is(i, "assignment_expression"@) {
        match assigned(t, i) {
            Some((left, right)) => assignment_writes(identifier(t, left), t.text(right)),
            None => Seq::empty(),
        }
    } else if t.is(i, "call_expression"@) {
        if called(t, i) == Some("free"@) {
            free_writes(t, arguments(t, i), arguments(t, i).len() as int)
        } else {
            Seq::empty()
        }
    } else if t.is(i, "pointer_expression"@) || t.is(i, "subscript_expression"@) {
        Seq::empty()
    } else if t.is(i, "if_statement"@) {
        match field_text(t, i, "condition"@) {
            Some(text) => match checked_name(text) {
                Some(name) => seq![(name, VarState::Checked)],
                None => Seq::empty(),
            },
            None => Seq::empty(),
        }
    } else {
        Seq::empty()
    }
}

/// What is known of the variables before the node `n`: what the nodes before it say, in the order
/// of the source.
pub open spec fn known_before(t: TreeModel, n: int) -> Map<Seq<char>, VarState>
    decreases n,
{
    if n <= 0 {
        Map::empty()
    } else {
        after_writes(known_before(t, n - 1), writes(t, n - 1))
    }
}

/// The variable that a declarator declares as a pointer, to whatever depth; `None` where it
/// declares something else.
pub open spec fn pointed_name(t: TreeModel, d: int) -> Option<Seq<char>>
    decreases t.len() - d,
{
    if d < t.len() && t.is(d, "pointer_declarator"@) {
        match t.field(d, "declarator"@) {
            Some(inner) => {
                proof {
                    lemma_field_after(t.nodes, t.nodes[d].depth, d + 1, "declarator"@);
                }
                if t.is(inner, "identifier"@) {
                    Some(t.text(inner))
                } else {
                    pointed_name(t, inner)
                }
            },
            None => None,
        }
    } else {
        None
    }
}

/// The pointer that a node declares with the declarator `d`. The star stands in the declarator or
/// in the type; a parameter is given its value by the caller, so a star in its declarator does not
/// count.
pub open spec fn declared_pointer(t: TreeModel, i: int, d: int) -> Option<Seq<char>> {
    if mentions(declared_type(t, i), "*"@) {
        Some(identifier(t, d))
    } else if t.is(i, "declaration"@) {
        pointed_name(t, d)
    } else {
        None
    }
}

/// What a pointer that is declared without a value is reported as.
pub open spec fn uninitialized_pointer(t: TreeModel, path: Seq<char>, i: int) -> Option<
    FindingModel,
> {
    match t.field(i, "declarator"@) {
        Some(d) => match declared_pointer(t, i, d) {
            Some(name) => if !initialized(t, i) {
                Some(
                    at_node(
                        t,
                        path,
                        i,
                        Severity::Medium,
                        "uninitialized_pointer"@,
                        "Pointer '"@ + name + "' declared without initialization"@,
                        "Initialize "@ + name + " to NULL or valid address"@,
                        82,
                    ),
                )
            } else {
                None
            },
            None => None,
        },
        None => None,
    }
}

/// What an allocation is reported as; no check is taken to follow it.
pub open spec fn unchecked_allocation(t: TreeModel, path: Seq<char>, i: int) -> Option<
    FindingModel,
> {
    match assigned(t, i) {
        Some((left, right)) => if allocates(t.text(right)) {
            Some(
                at_node(
                    t,
                    path,
                    i,
                    Severity::High,
                    "unchecked_allocation"@,
                    "'"@ + identifier(t, left) + "' allocated but not checked for NULL"@,
                    "Add: if (!"@ + identifier(t, left) + ") { return NULL; }"@,
                    88,
                ),
            )
        } else {
            None
        },
        None => None,
    }
}

/// What an argument that was freed before is reported as.
pub open spec fn use_after_free(
    t: TreeModel,
    path: Seq<char>,
    i: int,
    vars: Map<Seq<char>, VarState>,
    arg: int,
) -> Option<FindingModel> {
    if freed_in(vars, t.text(arg)) {
        Some(
            at_node(
                t,
                path,
                i,
                Severity::Critical,
                "use_after_free"@,
                "'"@ + t.text(arg) + "' used after free"@,
                "Remove use of "@ + t.text(arg) + " after free, or set to NULL"@,
                91,
            ),
        )
    } else {
        None
    }
}

/// The arguments of a call that were freed before, one by one.
pub open spec fn uses_after_free(
    t: TreeModel,
    path: Seq<char>,
    i: int,
    vars: Map<Seq<char>, VarState>,
) -> spec_fn(int) -> Seq<FindingModel> {
    |k: int| found(use_after_free(t, path, i, vars, arguments(t, i)[k]))
}

/// What an argument of `free` that was freed before is reported as.
pub open spec fn double_free(
    t: TreeModel,
    path: Seq<char>,
    i: int,
    vars: Map<Seq<char>, VarState>,
    arg: int,
) -> Option<FindingModel> {
    if !punctuation(t, arg) && freed_in(vars, t.text(arg)) {
        Some(
            at_node(
                t,
                path,
                i,
                Severity::Critical,
                "double_free"@,
                "Double-free of '"@ + t.text(arg) + "' detected"@,
                "Set pointer to NULL after first free"@,
                93,
            ),
        )
    } else {
        None
    }
}

/// The arguments of `free` that were freed before, by an earlier call or further left in this one.
pub open spec fn double_frees(
    t: TreeModel,
    path: Seq<char>,
    i: int,
    vars: Map<Seq<char>, VarState>,
) -> spec_fn(int) -> Seq<FindingModel> {
    |k: int|
        found(
            double_free(
                t,
                path,
                i,
                after_writes(vars, free_writes(t, arguments(t, i), k)),
                arguments(t, i)[k],
            ),
        )
}

/// The functions that take a format string.
pub open spec fn formats(name: Seq<char>) -> bool {
    name == "printf"@ || name == "sprintf"@ || name == "fprintf"@ || name == "snprintf"@
}

/// The first node of a list that is neither a parenthesis nor a comma.
pub open spec fn first_argument(t: TreeModel, nodes: Seq<int>) -> Option<int>
    decreases nodes.len(),
{
    if nodes.len() == 0 {
        None
    } else if !punctuation(t, nodes[0]) {
        Some(nodes[0])
    } else {
        first_argument(t, nodes.drop_first())
    }
}

/// What a call whose first argument is no string literal is reported as.
pub open spec fn format_string(t: TreeModel, path: Seq<char>, i: int, name: Seq<char>) -> Option<
    FindingModel,
> {
    if formats(name) {
        match first_argument(t, arguments(t, i)) {
            Some(arg) => if !t.is(arg, "string_literal"@) && !t.is(arg, "string_content"@) {
                Some(
                    at_node(
                        t,
                        path,
                        i,
                        Severity::Critical,
                        "format_string"@,
                        "Format string vulnerability in "@ + name,
                        "Use constant format string, never user input"@,
                        90,
                    ),
                )
            } else {
                None
            },
            None => None,
        }
    } else {
        None
    }
}

/// What a call is reported as.
pub open spec fn call_findings(
    t: TreeModel,
    path: Seq<char>,
    i: int,
    vars: Map<Seq<char>, VarState>,
) -> Seq<FindingModel> {
    match called(t, i) {
        Some(name) => {
            let n = arguments(t, i).len() as int;
            gather(uses_after_free(t, path, i, vars), n) + (if name == "free"@ {
                gather(double_frees(t, path, i, vars), n)
            } else {
                Seq::empty()
            }) + found(format_string(t, path, i, name))
        },
        None => Seq::empty(),
    }
}

/// Whether a node reads or writes what a pointer points to: with a star, or with a subscript.
pub open spec fn dereferences(t: TreeModel, i: int) -> bool {
    ||| t.is(i, "pointer_expression"@) && field_text(t, i, "operator"@) == Some("*"@)
    ||| t.is(i, "subscript_expression"@)
}

/// What a dereference or a subscript is applied to.
pub open spec fn operand(t: TreeModel, i: int) -> Option<int> {
    match t.field(i, "argument"@) {
        Some(c) => Some(c),
        None => t.first_child(i),
    }
}

/// What a dereference of a variable that is known to be null is reported as; where the operand
/// names no variable, nothing is known of it.
pub open spec fn null_dereference(
    t: TreeModel,
    path: Seq<char>,
    i: int,
    vars: Map<Seq<char>, VarState>,
) -> Option<FindingModel> {
    match operand(t, i) {
        Some(c) => {
            let name = identifier(t, c);
            if name.len() > 0 && null_in(vars, name) && !checked_in(vars, name) {
                Some(
                    at_node(
                        t,
                        path,
                        i,
                        Severity::Critical,
                        "null_dereference_confirmed"@,
                        "Confirmed NULL dereference of '"@ + name + "'"@,
                        "Add null check before dereferencing "@ + name,
                        94,
                    ),
                )
            } else {
                None
            }
        },
        None => None,
    }
}

/// What a node is reported as, given what is known of the variables before it.
pub open spec fn flow_findings(
    t: TreeModel,
    path: Seq<char>,
    i: int,
    vars: Map<Seq<char>, VarState>,
) -> Seq<FindingModel> {
    if t.is(i, "declaration"@) || t.is(i, "parameter_declaration"@) {
        found(uninitialized_pointer(t, path, i))
    } else if t.is(i, "assignment_expression"@) {
        found(unchecked_allocation(t, path, i))
    } else if t.is(i, "call_expression"@) {
        call_findings(t, path, i, vars)
    } else if dereferences(t, i) {
        found(null_dereference(t, path, i, vars))
    } else {
        Seq::empty()
    }
}

/// What the nodes are reported as, node by node.
pub open spec fn flow_rule(t: TreeModel, path: Seq<char>) -> spec_fn(int) -> Seq<FindingModel> {
    |i: int| flow_findings(t, path, i, known_before(t, i))
}

/// Follows variables through C and C++ sources.
pub struct DataFlowAnalyzer;

impl DataFlowAnalyzer {
    /// What is wrong with the use of variables in a source.
    pub fn analyze(tree: &SyntaxTree, path: &str) -> (r: Vec<Finding>)
        requires
            all_readable(tree@),
        ensures
            views(r@) == gather(flow_rule(tree@, path@), tree@.len()),
    {
        let mut findings: Vec<Finding> = Vec::new();
        let mut state = DataFlowState::new();
        let n: usize = tree.len();
        let mut i: usize = 0;
        assert(views(findings@) =~= Seq::<FindingModel>::empty());
        while i < n
            invariant
                i <= n,
                n == tree@.len(),
                all_readable(tree@),
                state@ == known_before(tree@, i as int),
                views(findings@) == gather(flow_rule(tree@, path@), i as int),
            decreases n - i,
        {
            assert(readable(tree@, i as int));
            Self::track_variables(tree, path, i, &mut state, &mut findings);
            i = i + 1;
        }
        findings
    }

    /// Whether all nodes can be read.
    pub fn can_read(tree: &SyntaxTree) -> (r: bool)
        ensures
            r == all_readable(tree@),
    {
        let n: usize = tree.len();
        let mut i: usize = 0;
        while i < n
            invariant
                i <= n,
                n == tree@.len(),
                forall|j: int| 0 <= j < i ==> #[trigger] readable(tree@, j),
            decreases n - i,
        {
            if let Some((_left, right)) = Self::sides(tree, i) {
                let text = tree.text(right);
                if contains(text, "free(") && Self::parentheses_reversed(text) {
                    assert(!readable(tree@, i as int));
                    return false;
                }
            }
            i = i + 1;
        }
        true
    }

    fn parentheses_reversed(text: &str) -> (r: bool)
        ensures
            r == reversed_parentheses(text@),
    {
        proof {
            lemma_find_char(text@, '(');
            lemma_find_char(text@, ')');
        }
        match split_once(text, 40) {
            Some((before, _after)) => match split_once(before, 41) {
                Some((head, _rest)) => {
                    proof {
                        let k = find_char(before@, ')');
                        lemma_find_char(before@, ')');
                        assert forall|j: int| 0 <= j < k implies text@[j] != ')' by {
                            assert(before@[j] == text@[j]);
                        }
                        lemma_find_char_unique(text@, ')', k);
                    }
                    true
                },
                None => {
                    proof {
                        lemma_find_char(before@, ')');
                        if find_char(text@, ')') < find_char(text@, '(') {
                            assert(before@[find_char(text@, ')')] == ')');
                        }
                    }
                    false
                },
            },
            None => false,
        }
    }

    fn sides(tree: &SyntaxTree, i: usize) -> (r: Option<(usize, usize)>)
        requires
            i < tree@.len(),
        ensures
            match r {
                Some((left, right)) => {
                    &&& left < tree@.len()
                    &&& right < tree@.len()
                    &&& assigned(tree@, i as int) == Some((left as int, right as int))
                },
                None => assigned(tree@, i as int) is None,
            },
    {
        if tree.is(i, "assignment_expression") {
            match tree.child_by_field_name(i, "left") {
                Some(left) => match tree.child_by_field_name(i, "right") {
                    Some(right) => Some((left, right)),
                    None => None,
                },
                None => None,
            }
        } else {
            None
        }
    }

    /// Reports what is wrong at one node, and learns what it says of variables.
    pub fn track_variables(
        tree: &SyntaxTree,
        path: &str,
        i: usize,
        state: &mut DataFlowState,
        findings: &mut Vec<Finding>,
    )
        requires
            i < tree@.len(),
            readable(tree@, i as int),
        ensures
            views(final(findings)@) == views(old(findings)@) + flow_findings(
                tree@,
                path@,
                i as int,
                old(state)@,
            ),
            final(state)@ == after_writes(old(state)@, writes(tree@, i as int)),
    {
        let ghost before = views(findings@);
        if tree.is(i, "declaration") || tree.is(i, "parameter_declaration") {
            Self::track_declaration(tree, path, i, state, findings);
        } else if tree.is(i, "assignment_expression") {
            Self::track_assignment(tree, path, i, state, findings);
        } else if tree.is(i, "call_expression") {
            Self::track_call(tree, path, i, state, findings);
        } else if tree.is(i, "pointer_expression") || tree.is(i, "subscript_expression") {
            let f = if Self::is_dereference(tree, i) {
                Self::confirmed_dereference(tree, path, i, state)
            } else {
                None
            };
            add_found(findings, f);
        } else {
            if tree.is(i, "if_statement") {
                if let Some(text) = text_of_field(tree, i, "condition") {
                    if let Some(name) = Self::extract_checked_var(text) {
                        proof {
                            lemma_one_write(state@, name@, VarState::Checked);
                        }
                        state.mark_checked(name);
                    }
                }
            }
            assert(before + Seq::<FindingModel>::empty() =~= before);
        }
    }

    fn track_declaration(
        tree: &SyntaxTree,
        path: &str,
        i: usize,
        state: &mut DataFlowState,
        findings: &mut Vec<Finding>,
    )
        requires
            i < tree@.len(),
            tree@.is(i as int, "declaration"@) || tree@.is(i as int, "parameter_declaration"@),
        ensures
            views(final(findings)@) == views(old(findings)@) + found(
                uninitialized_pointer(tree@, path@, i as int),
            ),
            final(state)@ == after_writes(old(state)@, writes(tree@, i as int)),
    {
        let mut f: Option<Finding> = None;
        if let Some(d) = tree.child_by_field_name(i, "declarator") {
            let name = Self::extract_identifier(tree, d);
            let kind = Self::extract_type(tree, i);
            let pointer = if contains(kind.as_str(), "*") {
                Some(name.as_str())
            } else if tree.is(i, "declaration") {
                Self::extract_pointer(tree, d)
            } else {
                None
            };
            if let Some(p) = pointer {
                if !Self::has_initializer(tree, i) {
                    f =
                    Some(
                        finding_at(
                            tree,
                            path,
                            i,
                            Severity::Medium,
                            "uninitialized_pointer",
                            glue3("Pointer '", p, "' declared without initialization"),
                            glue3("Initialize ", p, " to NULL or valid address"),
                            82,
                        ),
                    );
                }
            }
            Self::learn_declaration(tree, i, d, kind, state);
        }
        add_found(findings, f);
    }

    fn is_null_value(text: &str) -> (r: bool)
        ensures
            r == null_value(text@),
    {
        let t = trimmed(text);
        same(t, "NULL") || same(t, "0")
    }

    fn learn_declaration(
        tree: &SyntaxTree,
        i: usize,
        d: usize,
        kind: String,
        state: &mut DataFlowState,
    )
        requires
            i < tree@.len(),
            d < tree@.len(),
        ensures
            final(state)@ == after_writes(old(state)@, declaration_writes(tree@, i as int, d as int)),
    {
        let inner = if tree.is(d, "init_declarator") {
            tree.child_by_field_name(d, "declarator")
        } else {
            None
        };
        if let Some(c) = inner {
            if tree.is(c, "identifier") {
                let name = tree.text(c).to_owned();
                proof {
                    lemma_one_write(state@, name@, VarState::Uninitialized);
                }
                state.declare_variable(name, kind);
            } else if let Some(name) = Self::extract_pointer(tree, c) {
                if let Some(value) = text_of_field(tree, d, "value") {
                    if Self::is_null_value(value) {
                        proof {
                            lemma_one_write(state@, name@, VarState::Null);
                        }
                        state.mark_null(name.to_owned());
                    }
                }
            }
        } else {
            let name = match Self::extract_pointer(tree, d) {
                Some(name) => if tree.is(i, "declaration") {
                    name.to_owned()
                } else {
                    Self::extract_identifier(tree, d)
                },
                None => Self::extract_identifier(tree, d),
            };
            proof {
                lemma_one_write(state@, name@, VarState::Uninitialized);
            }
            state.declare_variable(name, kind);
        }
    }

    fn track_assignment(
        tree: &SyntaxTree,
        path: &str,
        i: usize,
        state: &mut DataFlowState,
        findings: &mut Vec<Finding>,
    )
        requires
            i < tree@.len(),
            readable(tree@, i as int),
        ensures
            views(final(findings)@) == views(old(findings)@) + found(
                unchecked_allocation(tree@, path@, i as int),
            ),
            final(state)@ == match assigned(tree@, i as int) {
                Some((left, right)) => after_writes(
                    old(state)@,
                    assignment_writes(identifier(tree@, left), tree@.text(right)),
                ),
                None => old(state)@,
            },
    {
        let mut f: Option<Finding> = None;
        if let Some((left, right)) = Self::sides(tree, i) {
            let name = Self::extract_identifier(tree, left);
            let rhs = tree.text(right);
            let ghost vars = state@;
            let ghost one = write_if(allocates(rhs@), name@, VarState::Allocated);
            let ghost two = write_if(null_value(rhs@), name@, VarState::Null);
            if contains(rhs, "malloc") || contains(rhs, "calloc") || contains(rhs, "realloc") {
                state.mark_allocated(name.clone());
                f =
                Some(
                    finding_at(
                        tree,
                        path,
                        i,
                        Severity::High,
                        "unchecked_allocation",
                        glue3("'", name.as_str(), "' allocated but not checked for NULL"),
                        glue3("Add: if (!", name.as_str(), ") { return NULL; }"),
                        88,
                    ),
                );
            }
            proof {
                lemma_write_if(vars, Seq::empty(), allocates(rhs@), name@, VarState::Allocated);
                assert(Seq::<(Seq<char>, VarState)>::empty() + one =~= one);
                lemma_write_if(vars, one, null_value(rhs@), name@, VarState::Null);
            }
            if Self::is_null_value(rhs) {
                state.mark_null(name.clone());
            }
            if contains(rhs, "free(") {
                if let Some(freed) = Self::extract_freed_var(rhs) {
                    proof {
                        lemma_write_if(vars, one + two, true, freed@, VarState::Freed);
                    }
                    state.mark_freed(freed);
                }
            }
            proof {
                let none = Seq::<(Seq<char>, VarState)>::empty();
                assert(one + two + none =~= one + two);
            }
        }
        add_found(findings, f);
    }

    fn track_call(
        tree: &SyntaxTree,
        path: &str,
        i: usize,
        state: &mut DataFlowState,
        findings: &mut Vec<Finding>,
    )
        requires
            i < tree@.len(),
        ensures
            views(final(findings)@) == views(old(findings)@) + call_findings(
                tree@,
                path@,
                i as int,
                old(state)@,
            ),
            final(state)@ == if called(tree@, i as int) == Some("free"@) {
                after_writes(
                    old(state)@,
                    free_writes(
                        tree@,
                        arguments(tree@, i as int),
                        arguments(tree@, i as int).len() as int,
                    ),
                )
            } else {
                old(state)@
            },
    {
        let ghost before = views(findings@);
        let ghost vars = state@;
        match called_function(tree, i) {
            Some(name) => {
                let args = Self::argument_parts(tree, i);
                Self::report_uses(tree, path, i, &args, state, findings);
                let ghost one = gather(
                    uses_after_free(tree@, path@, i as int, vars),
                    args@.len() as int,
                );
                let ghost two = if name@ == "free"@ {
                    gather(double_frees(tree@, path@, i as int, vars), args@.len() as int)
                } else {
                    Seq::empty()
                };
                if same(name, "free") {
                    Self::report_frees(tree, path, i, &args, state, findings);
                }
                assert(views(findings@) =~= before + one + two);
                let f = Self::unsafe_format(tree, path, i, name, &args);
                let ghost three = found(finding_view(f));
                add_found(findings, f);
                assert(views(findings@) =~= before + (one + two + three));
            },
            None => {
                assert(before + Seq::<FindingModel>::empty() =~= before);
            },
        }
    }

    pub fn argument_parts(tree: &SyntaxTree, i: usize) -> (r: Vec<usize>)
        requires
            i < tree@.len(),
        ensures
            indices(r@) == arguments(tree@, i as int),
            forall|j: int| 0 <= j < r@.len() ==> #[trigger] r@[j] < tree@.len(),
    {
        match tree.child_by_field_name(i, "arguments") {
            Some(args) => tree.children(args),
            None => {
                let r: Vec<usize> = Vec::new();
                assert(indices(r@) =~= Seq::<int>::empty());
                r
            },
        }
    }

    fn report_uses(
        tree: &SyntaxTree,
        path: &str,
        i: usize,
        args: &Vec<usize>,
        state: &DataFlowState,
        findings: &mut Vec<Finding>,
    )
        requires
            i < tree@.len(),
            indices(args@) == arguments(tree@, i as int),
            forall|j: int| 0 <= j < args@.len() ==> #[trigger] args@[j] < tree@.len(),
        ensures
            views(final(findings)@) == views(old(findings)@) + gather(
                uses_after_free(tree@, path@, i as int, state@),
                args@.len() as int,
            ),
    {
        let ghost before = views(findings@);
        let ghost rule = uses_after_free(tree@, path@, i as int, state@);
        let mut k: usize = 0;
        assert(views(findings@) =~= before + gather(rule, 0));
        while k < args.len()
            invariant
                k <= args@.len(),
                i < tree@.len(),
                indices(args@) == arguments(tree@, i as int),
                forall|j: int| 0 <= j < args@.len() ==> #[trigger] args@[j] < tree@.len(),
                rule == uses_after_free(tree@, path@, i as int, state@),
                views(findings@) == before + gather(rule, k as int),
            decreases args@.len() - k,
        {
            let arg: usize = args[k];
            assert(indices(args@)[k as int] == arg);
            let text = tree.text(arg);
            let mut f: Option<Finding> = None;
            if state.is_freed(text) {
                f =
                Some(
                    finding_at(
                        tree,
                        path,
                        i,
                        Severity::Critical,
                        "use_after_free",
                        glue3("'", text, "' used after free"),
                        glue3("Remove use of ", text, " after free, or set to NULL"),
                        91,
                    ),
                );
            }
            assert(rule(k as int) == found(finding_view(f)));
            add_found(findings, f);
            assert(before + gather(rule, k as int) + rule(k as int) =~= before + (gather(
                rule,
                k as int,
            ) + rule(k as int)));
            k = k + 1;
        }
    }

    fn report_frees(
        tree: &SyntaxTree,
        path: &str,
        i: usize,
        args: &Vec<usize>,
        state: &mut DataFlowState,
        findings: &mut Vec<Finding>,
    )
        requires
            i < tree@.len(),
            indices(args@) == arguments(tree@, i as int),
            forall|j: int| 0 <= j < args@.len() ==> #[trigger] args@[j] < tree@.len(),
        ensures
            views(final(findings)@) == views(old(findings)@) + gather(
                double_frees(tree@, path@, i as int, old(state)@),
                args@.len() as int,
            ),
            final(state)@ == after_writes(
                old(state)@,
                free_writes(tree@, arguments(tree@, i as int), args@.len() as int),
            ),
    {
        let ghost before = views(findings@);
        let ghost vars = state@;
        let ghost rule = double_frees(tree@, path@, i as int, vars);
        let mut k: usize = 0;
        assert(views(findings@) =~= before + gather(rule, 0));
        while k < args.len()
            invariant
                k <= args@.len(),
                i < tree@.len(),
                indices(args@) == arguments(tree@, i as int),
                forall|j: int| 0 <= j < args@.len() ==> #[trigger] args@[j] < tree@.len(),
                rule == double_frees(tree@, path@, i as int, vars),
                views(findings@) == before + gather(rule, k as int),
                state@ == after_writes(
                    vars,
                    free_writes(tree@, arguments(tree@, i as int), k as int),
                ),
            decreases args@.len() - k,
        {
            let arg: usize = args[k];
            assert(indices(args@)[k as int] == arg);
            let text = tree.text(arg);
            let mut f: Option<Finding> = None;
            let counts = !is_punctuation(tree, arg);
            if counts && state.is_freed(text) {
                f =
                Some(
                    finding_at(
                        tree,
                        path,
                        i,
                        Severity::Critical,
                        "double_free",
                        glue3("Double-free of '", text, "' detected"),
                        "Set pointer to NULL after first free".to_owned(),
                        93,
                    ),
                );
            }
            assert(rule(k as int) == found(finding_view(f)));
            add_found(findings, f);
            proof {
                lemma_write_if(
                    vars,
                    free_writes(tree@, arguments(tree@, i as int), k as int),
                    !punctuation(tree@, arg as int),
                    tree@.text(arg as int),
                    VarState::Freed,
                );
            }
            if counts {
                state.mark_freed(text.to_owned());
            }
            assert(before + gather(rule, k as int) + rule(k as int) =~= before + (gather(
                rule,
                k as int,
            ) + rule(k as int)));
            k = k + 1;
        }
    }

    fn unsafe_format(
        tree: &SyntaxTree,
        path: &str,
        i: usize,
        name: &str,
        args: &Vec<usize>,
    ) -> (r: Option<Finding>)
        requires
            i < tree@.len(),
            indices(args@) == arguments(tree@, i as int),
            forall|j: int| 0 <= j < args@.len() ==> #[trigger] args@[j] < tree@.len(),
        ensures
            finding_view(r) == format_string(tree@, path@, i as int, name@),
    {
        if !(same(name, "printf") || same(name, "sprintf") || same(name, "fprintf") || same(
            name,
            "snprintf",
        )) {
            return None;
        }
        let ghost all = arguments(tree@, i as int);
        assert(all.skip(0) =~= all);
        let mut k: usize = 0;
        while k < args.len()
            invariant
                k <= args@.len(),
                i < tree@.len(),
                all == arguments(tree@, i as int),
                indices(args@) == all,
                formats(name@),
                forall|j: int| 0 <= j < args@.len() ==> #[trigger] args@[j] < tree@.len(),
                first_argument(tree@, all) == first_argument(tree@, all.skip(k as int)),
            decreases args@.len() - k,
        {
            let arg: usize = args[k];
            assert(indices(args@)[k as int] == arg);
            assert(all.skip(k as int)[0] == arg);
            if !is_punctuation(tree, arg) {
                if !tree.is(arg, "string_literal") && !tree.is(arg, "string_content") {
                    return Some(
                        finding_at(
                            tree,
                            path,
                            i,
                            Severity::Critical,
                            "format_string",
                            glue("Format string vulnerability in ", name),
                            "Use constant format string, never user input".to_owned(),
                            90,
                        ),
                    );
                }
                return None;
            }
            assert(all.skip(k as int).drop_first() =~= all.skip(k + 1));
            k = k + 1;
        }
        None
    }

    fn is_dereference(tree: &SyntaxTree, i: usize) -> (r: bool)
        requires
            i < tree@.len(),
        ensures
            r == dereferences(tree@, i as int),
    {
        if tree.is(i, "pointer_expression") {
            if let Some(operator) = text_of_field(tree, i, "operator") {
                if same(operator, "*") {
                    return true;
                }
            }
        }
        tree.is(i, "subscript_expression")
    }

    fn confirmed_dereference(
        tree: &SyntaxTree,
        path: &str,
        i: usize,
        state: &DataFlowState,
    ) -> (r: Option<Finding>)
        requires
            i < tree@.len(),
        ensures
            finding_view(r) == null_dereference(tree@, path@, i as int, state@),
    {
        let operand = match tree.child_by_field_name(i, "argument") {
            Some(c) => Some(c),
            None => tree.first_child(i),
        };
        match operand {
            Some(c) => {
                let name = Self::extract_identifier(tree, c);
                proof {
                    crate::text::lemma_no_bytes(name@);
                }
                if name.as_str().as_bytes().len() > 0 && state.is_null(name.as_str()) && !state.is_checked(name.as_str()) {
                    Some(
                        finding_at(
                            tree,
                            path,
                            i,
                            Severity::Critical,
                            "null_dereference_confirmed",
                            glue3("Confirmed NULL dereference of '", name.as_str(), "'"),
                            glue("Add null check before dereferencing ", name.as_str()),
                            94,
                        ),
                    )
                } else {
                    None
                }
            },
            None => None,
        }
    }

    /// The name that a node stands for.
    pub fn extract_identifier(tree: &SyntaxTree, i: usize) -> (r: String)
        requires
            i < tree@.len(),
        ensures
            r@ == identifier(tree@, i as int),
    {
        if tree.is(i, "identifier") {
            return tree.text(i).to_owned();
        }
        let kids = tree.children(i);
        let ghost all = tree@.children(i as int);
        assert(all.skip(0) =~= all);
        let mut k: usize = 0;
        while k < kids.len()
            invariant
                k <= kids@.len(),
                i < tree@.len(),
                all == tree@.children(i as int),
                indices(kids@) == all,
                !tree@.is(i as int, "identifier"@),
                forall|j: int| 0 <= j < kids@.len() ==> #[trigger] kids@[j] < tree@.len(),
                first_identifier(tree@, all) == first_identifier(tree@, all.skip(k as int)),
            decreases kids@.len() - k,
        {
            let c: usize = kids[k];
            assert(indices(kids@)[k as int] == c);
            assert(all.skip(k as int)[0] == c);
            if tree.is(c, "identifier") {
                return tree.text(c).to_owned();
            }
            assert(all.skip(k as int).drop_first() =~= all.skip(k + 1));
            k = k + 1;
        }
        "".to_owned()
    }

    /// The variable that a declarator declares as a pointer.
    pub fn extract_pointer<'a>(tree: &SyntaxTree<'a>, d: usize) -> (r: Option<&'a str>)
        requires
            d < tree@.len(),
        ensures
            text_view(r) == pointed_name(tree@, d as int),
        decreases tree@.len() - d,
    {
        if !tree.is(d, "pointer_declarator") {
            return None;
        }
        match tree.child_by_field_name(d, "declarator") {
            Some(inner) => if tree.is(inner, "identifier") {
                Some(tree.text(inner))
            } else {
                Self::extract_pointer(tree, inner)
            },
            None => None,
        }
    }

    /// The text of the type of a declaration.
    pub fn extract_type(tree: &SyntaxTree, i: usize) -> (r: String)
        requires
            i < tree@.len(),
        ensures
            r@ == declared_type(tree@, i as int),
    {
        match text_of_field(tree, i, "type") {
            Some(text) => text.to_owned(),
            None => "".to_owned(),
        }
    }

    /// Whether a declaration gives its variable a value.
    pub fn has_initializer(tree: &SyntaxTree, i: usize) -> (r: bool)
        requires
            i < tree@.len(),
        ensures
            r == initialized(tree@, i as int),
    {
        let kids = tree.children(i);
        let mut k: usize = 0;
        while k < kids.len()
            invariant
                k <= kids@.len(),
                i < tree@.len(),
                indices(kids@) == tree@.children(i as int),
                forall|j: int| 0 <= j < kids@.len() ==> #[trigger] kids@[j] < tree@.len(),
                forall|j: int|
                    0 <= j < k ==> !tree@.is(#[trigger] tree@.children(i as int)[j], "="@)
                        && !tree@.is(tree@.children(i as int)[j], "init_declarator"@),
            decreases kids@.len() - k,
        {
            let c: usize = kids[k];
            assert(indices(kids@)[k as int] == c);
            assert(tree@.children(i as int)[k as int] == c);
            if tree.is(c, "=") || tree.is(c, "init_declarator") {
                return true;
            }
            k = k + 1;
        }
        false
    }

    /// What stands between the first opening and the first closing parenthesis of a text.
    pub fn extract_freed_var(text: &str) -> (r: Option<String>)
        requires
            !reversed_parentheses(text@),
        ensures
            crate::finding::optional_text(r) == freed_name(text@),
    {
        proof {
            lemma_find_char(text@, '(');
            lemma_find_char(text@, ')');
        }
        match split_once(text, 40) {
            Some((_before, after)) => {
                let ghost from = find_char(text@, '(');
                let ghost to = find_char(text@, ')');
                proof {
                    lemma_find_char(after@, ')');
                    if to < text@.len() {
                        assert(after@[to - from - 1] == ')');
                        assert forall|j: int| 0 <= j < to - from - 1 implies after@[j] != ')' by {
                            assert(after@[j] == text@[from + 1 + j]);
                        }
                        lemma_find_char_unique(after@, ')', to - from - 1);
                    } else {
                        if find_char(after@, ')') < after@.len() {
                            assert(text@[from + 1 + find_char(after@, ')')] == ')');
                        }
                    }
                }
                match split_once(after, 41) {
                    Some((inner, _rest)) => {
                        assert(inner@ =~= text@.subrange(from + 1, to));
                        let name = trimmed(inner);
                        if name.as_bytes().len() == 0 {
                            proof {
                                crate::text::lemma_no_bytes(name@);
                            }
                            None
                        } else {
                            proof {
                                crate::text::lemma_no_bytes(name@);
                            }
                            Some(name.to_owned())
                        }
                    },
                    None => None,
                }
            },
            None => None,
        }
    }

    fn is_variable_like(text: &str) -> (r: bool)
        ensures
            r == variable_like(text@),
    {
        let chars = chars_of(text);
        if chars.len() == 0 || ('0' <= chars[0] && chars[0] <= '9') {
            return false;
        }
        let mut i: usize = 0;
        while i < chars.len()
            invariant
                i <= chars@.len(),
                chars@ == text@,
                forall|j: int|
                    0 <= j < i ==> alphanumeric(#[trigger] text@[j]) || text@[j] == '_',
            decreases chars@.len() - i,
        {
            let c = chars[i];
            assert(c == text@[i as int]);
            if !(is_alphanumeric(c) || c == '_') {
                return false;
            }
            i = i + 1;
        }
        true
    }

    /// The name that a condition shows not to be null.
    pub fn extract_checked_var(text: &str) -> (r: Option<String>)
        ensures
            crate::finding::optional_text(r) == checked_name(text@),
    {
        if contains(text, "!= NULL") || contains(text, "!= 0") {
            proof {
                reveal_strlit("!=");
            }
            if let Some(a) = before_text(text, "!=") {
                return Some(bare_text(a).to_owned());
            }
        }
        let name = bare_text(text);
        if Self::is_variable_like(name) {
            Some(name.to_owned())
        } else {
            None
        }
    }
}

/// One more write, where `cond` holds.
pub(crate) proof fn lemma_write_if(
    vars: Map<Seq<char>, VarState>,
    earlier: Seq<(Seq<char>, VarState)>,
    cond: bool,
    name: Seq<char>,
    state: VarState,
)
    ensures
        after_writes(vars, earlier + write_if(cond, name, state)) == if cond {
            after_writes(vars, earlier).insert(name, state)
        } else {
            after_writes(vars, earlier)
        },
{
    let all = earlier + write_if(cond, name, state);
    if cond {
        assert(all.drop_last() =~= earlier);
        assert(all.last() == (name, state));
    } else {
        assert(all =~= earlier);
    }
}

/// What a single write leaves.
pub(crate) proof fn lemma_one_write(vars: Map<Seq<char>, VarState>, name: Seq<char>, state: VarState)
    ensures
        after_writes(vars, seq![(name, state)]) == vars.insert(name, state),
{
    lemma_write_if(vars, Seq::empty(), true, name, state);
    assert(Seq::<(Seq<char>, VarState)>::empty() + seq![(name, state)] =~= seq![(name, state)]);
}

/// What a text is written as last is what is known of it.
pub proof fn last_write_counts(
    vars: Map<Seq<char>, VarState>,
    earlier: Seq<(Seq<char>, VarState)>,
    name: Seq<char>,
    state: VarState,
)
    ensures
        after_writes(vars, earlier.push((name, state))).contains_key(name),
        after_writes(vars, earlier.push((name, state)))[name] == state,
{
    let all = earlier.push((name, state));
    assert(all.drop_last() =~= earlier);
    assert(all.last() == (name, state));
}

/// Of a variable at most one is known: that it is freed, that it is null, or that it is checked.
pub proof fn states_exclude_each_other(vars: Map<Seq<char>, VarState>, name: Seq<char>)
    ensures
        !(freed_in(vars, name) && null_in(vars, name)),
        !(freed_in(vars, name) && checked_in(vars, name)),
        !(null_in(vars, name) && checked_in(vars, name)),
{
}

/// Whether no write is of the variable `name`.
pub open spec fn untouched(writes: Seq<(Seq<char>, VarState)>, name: Seq<char>) -> bool {
    forall|k: int| 0 <= k < writes.len() ==> (#[trigger] writes[k]).0 != name
}

pub(crate) proof fn lemma_untouched(
    vars: Map<Seq<char>, VarState>,
    writes: Seq<(Seq<char>, VarState)>,
    name: Seq<char>,
)
    requires
        untouched(writes, name),
    ensures
        after_writes(vars, writes).contains_key(name) == vars.contains_key(name),
        vars.contains_key(name) ==> after_writes(vars, writes)[name] == vars[name],
    decreases writes.len(),
{
    if writes.len() > 0 {
        let rest = writes.drop_last();
        assert forall|k: int| 0 <= k < rest.len() implies (#[trigger] rest[k]).0 != name by {
            assert(rest[k] == writes[k]);
        }
        assert(writes[writes.len() - 1].0 != name);
        lemma_untouched(vars, rest, name);
    }
}

/// What is known of a variable stays known as long as nothing is said of it.
pub proof fn knowledge_lasts(t: TreeModel, from: int, to: int, name: Seq<char>)
    requires
        0 <= from <= to,
        forall|k: int| from <= k < to ==> untouched(#[trigger] writes(t, k), name),
    ensures
        known_before(t, to).contains_key(name) == known_before(t, from).contains_key(name),
        known_before(t, from).contains_key(name) ==> known_before(t, to)[name] == known_before(
            t,
            from,
        )[name],
    decreases to - from,
{
    if from < to {
        knowledge_lasts(t, from, to - 1, name);
        assert(untouched(writes(t, to - 1), name));
        lemma_untouched(known_before(t, to - 1), writes(t, to - 1), name);
    }
}

/// Which texts a call of `free` frees.
pub(crate) proof fn lemma_free_writes(t: TreeModel, args: Seq<int>, n: int, k: int)
    requires
        0 <= k < n <= args.len(),
        !punctuation(t, args[k]),
    ensures
        exists|j: int|
            0 <= j < free_writes(t, args, n).len() && #[trigger] free_writes(t, args, n)[j] == (
                t.text(args[k]),
                VarState::Freed,
            ),
    decreases n,
{
    let before = free_writes(t, args, n - 1);
    let all = free_writes(t, args, n);
    if k == n - 1 {
        assert(all[before.len() as int] == (t.text(args[k]), VarState::Freed));
    } else {
        lemma_free_writes(t, args, n - 1, k);
        let j = choose|j: int|
            0 <= j < before.len() && #[trigger] before[j] == (t.text(args[k]), VarState::Freed);
        assert(all[j] == before[j]);
    }
}

/// Writes that all free leave what they write freed.
pub(crate) proof fn lemma_all_freed(
    vars: Map<Seq<char>, VarState>,
    writes: Seq<(Seq<char>, VarState)>,
    j: int,
)
    requires
        0 <= j < writes.len(),
        forall|k: int| 0 <= k < writes.len() ==> (#[trigger] writes[k]).1 == VarState::Freed,
    ensures
        freed_in(after_writes(vars, writes), writes[j].0),
    decreases writes.len(),
{
    let rest = writes.drop_last();
    if j < rest.len() {
        assert forall|k: int| 0 <= k < rest.len() implies (#[trigger] rest[k]).1
            == VarState::Freed by {
            assert(rest[k] == writes[k]);
        }
        lemma_all_freed(vars, rest, j);
        assert(rest[j] == writes[j]);
    }
    assert(writes[writes.len() - 1].1 == VarState::Freed);
}

pub(crate) proof fn lemma_free_writes_free(t: TreeModel, args: Seq<int>, n: int)
    ensures
        forall|k: int|
            0 <= k < free_writes(t, args, n).len() ==> (#[trigger] free_writes(t, args, n)[k]).1
                == VarState::Freed,
    decreases n,
{
    if n > 0 {
        lemma_free_writes_free(t, args, n - 1);
    }
}

/// Whether the node `i` calls `free` with the argument number `k` of its parts.
pub open spec fn frees(t: TreeModel, i: int, k: int) -> bool {
    &&& called(t, i) == Some("free"@)
    &&& 0 <= k < arguments(t, i).len()
    &&& !punctuation(t, arguments(t, i)[k])
}

/// A variable that is handed to `free` is known to be freed, as long as nothing is said of it
/// after that.
pub proof fn freed_stays_freed(t: TreeModel, i: int, k: int, later: int)
    requires
        0 <= i < later,
        frees(t, i, k),
        forall|m: int|
            i < m < later ==> untouched(
                #[trigger] writes(t, m),
                t.text(arguments(t, i)[k]),
            ),
    ensures
        freed_in(known_before(t, later), t.text(arguments(t, i)[k])),
{
    let args = arguments(t, i);
    let name = t.text(args[k]);
    let n = args.len() as int;
    lemma_free_writes(t, args, n, k);
    lemma_free_writes_free(t, args, n);
    let j = choose|j: int|
        0 <= j < free_writes(t, args, n).len() && #[trigger] free_writes(t, args, n)[j] == (
            name,
            VarState::Freed,
        );
    lemma_all_freed(known_before(t, i), free_writes(t, args, n), j);
    lemma_call_kind(t, i);
    assert(writes(t, i) == free_writes(t, args, n));
    assert(known_before(t, i + 1) == after_writes(known_before(t, i), writes(t, i)));
    knowledge_lasts(t, i + 1, later, name);
}

/// A variable that is freed twice, with nothing said of it in between, is reported as freed
/// twice.
pub proof fn double_free_is_reported(
    t: TreeModel,
    path: Seq<char>,
    i: int,
    k: int,
    later: int,
    m: int,
)
    requires
        0 <= i < later < t.len(),
        frees(t, i, k),
        frees(t, later, m),
        t.text(arguments(t, later)[m]) == t.text(arguments(t, i)[k]),
        forall|n: int|
            i < n < later ==> untouched(
                #[trigger] writes(t, n),
                t.text(arguments(t, i)[k]),
            ),
    ensures
        exists|f: FindingModel| #[trigger]
            flow_rule(t, path)(later).contains(f) && f.category == "double_free"@ && f.line
                == t.place(later).0 && f.column == t.place(later).1,
{
    broadcast use {lemma_in_left, lemma_in_right};

    freed_stays_freed(t, i, k, later);
    let vars = known_before(t, later);
    let args = arguments(t, later);
    let n = args.len() as int;
    let name = t.text(args[m]);
    lemma_free_writes_free(t, args, m);
    lemma_freed_kept(vars, free_writes(t, args, m), name);
    let rule = double_frees(t, path, later, vars);
    let f = rule(m)[0];
    assert(rule(m).contains(f));
    lemma_gathered(rule, n, m, f);
    lemma_call_kind(t, later);
    assert(call_findings(t, path, later, vars).contains(f));
    assert(flow_rule(t, path)(later).contains(f));
}

/// A variable that is freed, and handed to a function with nothing said of it in between, is
/// reported as used after it was freed.
pub proof fn use_after_free_is_reported(
    t: TreeModel,
    path: Seq<char>,
    i: int,
    k: int,
    later: int,
    m: int,
)
    requires
        0 <= i < later < t.len(),
        frees(t, i, k),
        called(t, later) is Some,
        0 <= m < arguments(t, later).len(),
        t.text(arguments(t, later)[m]) == t.text(arguments(t, i)[k]),
        forall|n: int|
            i < n < later ==> untouched(
                #[trigger] writes(t, n),
                t.text(arguments(t, i)[k]),
            ),
    ensures
        exists|f: FindingModel| #[trigger]
            flow_rule(t, path)(later).contains(f) && f.category == "use_after_free"@ && f.line
                == t.place(later).0 && f.column == t.place(later).1,
{
    broadcast use {lemma_in_left, lemma_in_right};

    freed_stays_freed(t, i, k, later);
    let vars = known_before(t, later);
    let n = arguments(t, later).len() as int;
    let rule = uses_after_free(t, path, later, vars);
    let f = rule(m)[0];
    assert(rule(m).contains(f));
    lemma_gathered(rule, n, m, f);
    lemma_call_kind(t, later);
    assert(call_findings(t, path, later, vars).contains(f));
    assert(flow_rule(t, path)(later).contains(f));
}

/// A dereference of a variable that is known to be null, and was not checked, is reported.
pub proof fn null_dereference_is_reported(t: TreeModel, path: Seq<char>, i: int)
    requires
        0 <= i < t.len(),
        dereferences(t, i),
        operand(t, i) matches Some(c) && identifier(t, c).len() > 0 && null_in(
            known_before(t, i),
            identifier(t, c),
        ) && !checked_in(known_before(t, i), identifier(t, c)),
    ensures
        exists|f: FindingModel| #[trigger]
            flow_rule(t, path)(i).contains(f) && f.category == "null_dereference_confirmed"@
                && f.line == t.place(i).0 && f.column == t.place(i).1,
{
    let f = null_dereference(t, path, i, known_before(t, i))->0;
    lemma_dereference_kind(t, i);
    assert(flow_rule(t, path)(i)[0] == f);
    assert(flow_rule(t, path)(i).contains(f));
}

/// The variable that the node `i` sets to null: by an assignment, or by the declaration of a
/// pointer or of a plain variable with that value.
pub open spec fn nulled(t: TreeModel, i: int) -> Option<Seq<char>> {
    if t.is(i, "assignment_expression"@) {
        match assigned(t, i) {
            Some((left, right)) => if null_value(t.text(right)) {
                Some(identifier(t, left))
            } else {
                None
            },
            None => None,
        }
    } else if t.is(i, "declaration"@) {
        match t.field(i, "declarator"@) {
            Some(d) => nulled_by_declarator(t, d),
            None => None,
        }
    } else {
        None
    }
}

/// The variable that a declarator sets to null.
pub open spec fn nulled_by_declarator(t: TreeModel, d: int) -> Option<Seq<char>> {
    match (initialized_declarator(t, d), field_text(t, d, "value"@)) {
        (Some(inner), Some(value)) => if !null_value(value) {
            None
        } else if t.is(inner, "identifier"@) {
            Some(t.text(inner))
        } else {
            pointed_name(t, inner)
        },
        _ => None,
    }
}

/// A variable that is set to null is known to be null, as long as nothing is said of it after
/// that.
pub proof fn null_stays_null(t: TreeModel, i: int, name: Seq<char>, later: int)
    requires
        0 <= i < later,
        nulled(t, i) == Some(name),
        forall|m: int| i < m < later ==> untouched(#[trigger] writes(t, m), name),
    ensures
        null_in(known_before(t, later), name),
{
    if t.is(i, "assignment_expression"@) {
        let (left, right) = assigned(t, i)->0;
        let rhs = t.text(right);
        lemma_assignment_kind(t, i);
        lemma_null_frees_nothing(rhs);
        let one = write_if(allocates(rhs), name, VarState::Allocated);
        let two = seq![(name, VarState::Null)];
        let none = Seq::<(Seq<char>, VarState)>::empty();
        assert(one + two + none =~= one.push((name, VarState::Null)));
        assert(writes(t, i) == one.push((name, VarState::Null)));
        last_write_counts(known_before(t, i), one, name, VarState::Null);
    } else {
        let state = writes(t, i)[0].1;
        assert(writes(t, i) =~= seq![(name, state)]);
        lemma_one_write(known_before(t, i), name, state);
    }
    assert(known_before(t, i + 1) == after_writes(known_before(t, i), writes(t, i)));
    knowledge_lasts(t, i + 1, later, name);
}

/// Null itself is no call of `free`.
pub(crate) proof fn lemma_null_frees_nothing(rhs: Seq<char>)
    requires
        null_value(rhs),
    ensures
        freed_name(rhs) is None,
{
    reveal_strlit("NULL");
    reveal_strlit("0");
    lemma_find_char(rhs, '(');
    if find_char(rhs, '(') < rhs.len() {
        assert(rhs.contains('('));
        assert(!white_space('('));
        lemma_trim_keeps(rhs, '(');
        let k = choose|k: int| 0 <= k < trim(rhs).len() && trim(rhs)[k] == '(';
        assert(trim(rhs)[k] == '(');
    }
}

/// A dereference is no declaration, no assignment and no call.
pub(crate) proof fn lemma_dereference_kind(t: TreeModel, i: int)
    requires
        dereferences(t, i),
    ensures
        !t.is(i, "declaration"@),
        !t.is(i, "parameter_declaration"@),
        !t.is(i, "assignment_expression"@),
        !t.is(i, "call_expression"@),
{
    reveal_strlit("pointer_expression");
    reveal_strlit("subscript_expression");
    reveal_strlit("declaration");
    reveal_strlit("parameter_declaration");
    reveal_strlit("assignment_expression");
    reveal_strlit("call_expression");
    assert("pointer_expression"@.len() == 18);
    assert("subscript_expression"@.len() == 20);
    assert("declaration"@.len() == 11);
    assert("parameter_declaration"@.len() == 21);
    assert("assignment_expression"@.len() == 21);
    assert("call_expression"@.len() == 15);
}

/// An assignment is no declaration.
pub(crate) proof fn lemma_assignment_kind(t: TreeModel, i: int)
    requires
        t.is(i, "assignment_expression"@),
    ensures
        !t.is(i, "declaration"@),
        !t.is(i, "parameter_declaration"@),
{
    reveal_strlit("declaration");
    reveal_strlit("parameter_declaration");
    reveal_strlit("assignment_expression");
    assert("declaration"@.len() == 11);
    assert("assignment_expression"@.len() == 21);
    assert("assignment_expression"@[0] == 'a');
    assert("parameter_declaration"@[0] == 'p');
}

/// A call is neither a declaration nor an assignment.
pub(crate) proof fn lemma_call_kind(t: TreeModel, i: int)
    requires
        t.is(i, "call_expression"@),
    ensures
        !t.is(i, "declaration"@),
        !t.is(i, "parameter_declaration"@),
        !t.is(i, "assignment_expression"@),
{
    reveal_strlit("call_expression");
    reveal_strlit("declaration");
    reveal_strlit("parameter_declaration");
    reveal_strlit("assignment_expression");
    assert("call_expression"@.len() == 15);
    assert("declaration"@.len() == 11);
    assert("parameter_declaration"@.len() == 21);
    assert("assignment_expression"@.len() == 21);
}

pub(crate) proof fn lemma_freed_kept(
    vars: Map<Seq<char>, VarState>,
    writes: Seq<(Seq<char>, VarState)>,
    name: Seq<char>,
)
    requires
        freed_in(vars, name),
        forall|k: int| 0 <= k < writes.len() ==> (#[trigger] writes[k]).1 == VarState::Freed,
    ensures
        freed_in(after_writes(vars, writes), name),
    decreases writes.len(),
{
    if writes.len() > 0 {
        let rest = writes.drop_last();
        assert forall|k: int| 0 <= k < rest.len() implies (#[trigger] rest[k]).1
            == VarState::Freed by {
            assert(rest[k] == writes[k]);
        }
        assert(writes[writes.len() - 1].1 == VarState::Freed);
        lemma_freed_kept(vars, rest, name);
    }
}

} // verus!
