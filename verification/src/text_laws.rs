//! What the operations on texts do, stated by how the texts are put together.
use vstd::prelude::*;

use crate::dataflow::{checked_name, freed_name};
use crate::outside::{alphanumeric, white_space};
use crate::syntax::{position, slice};
use crate::text::{
    all_digits, bare, byte_len, closing, decimal, decimal_value, find_char, find_text, is_integer,
    join, lemma_find_char, lemma_find_char_unique, lemma_find_text, less, lines, mentions,
    occurs_at, repeated, split, strip_cr, trim, trim_end, trim_start,
};

verus! {

/// Whether all characters of a text are white space.
pub open spec fn blank(text: Seq<char>) -> bool {
    forall|k: int| 0 <= k < text.len() ==> white_space(#[trigger] text[k])
}

proof fn lemma_trim_start(a: Seq<char>, core: Seq<char>)
    requires
        blank(a),
        core.len() > 0 ==> !white_space(core[0]),
    ensures
        trim_start(a + core) == core,
    decreases a.len(),
{
    let text = a + core;
    if a.len() > 0 {
        let rest = a.drop_first();
        assert forall|k: int| 0 <= k < rest.len() implies white_space(#[trigger] rest[k]) by {
            assert(rest[k] == a[k + 1]);
        }
        lemma_trim_start(rest, core);
        assert(white_space(a[0]));
        assert(text[0] == a[0]);
        assert(text.drop_first() =~= rest + core);
    } else {
        assert(text =~= core);
    }
}

proof fn lemma_trim_end(core: Seq<char>, b: Seq<char>)
    requires
        blank(b),
        core.len() > 0 ==> !white_space(core.last()),
    ensures
        trim_end(core + b) == core,
    decreases b.len(),
{
    let text = core + b;
    if b.len() > 0 {
        let rest = b.drop_last();
        assert forall|k: int| 0 <= k < rest.len() implies white_space(#[trigger] rest[k]) by {
            assert(rest[k] == b[k]);
        }
        lemma_trim_end(core, rest);
        assert(white_space(b[b.len() - 1]));
        assert(text.last() == b[b.len() - 1]);
        assert(text.drop_last() =~= core + rest);
    } else {
        assert(text =~= core);
    }
}

/// Trimming takes the white space off both ends of a text, and nothing else; of white space alone
/// nothing is left.
pub proof fn trimming_takes_white_space_off(a: Seq<char>, core: Seq<char>, b: Seq<char>)
    requires
        blank(a),
        blank(b),
        core.len() > 0 ==> !white_space(core[0]) && !white_space(core.last()),
    ensures
        trim(a + core + b) == core,
{
    if core.len() > 0 {
        assert((core + b)[0] == core[0]);
        lemma_trim_start(a, core + b);
        assert(a + core + b =~= a + (core + b));
        lemma_trim_end(core, b);
    } else {
        assert forall|k: int| 0 <= k < (a + b).len() implies white_space(#[trigger] (a + b)[k]) by {
            if k < a.len() {
                assert(white_space(a[k]));
            } else {
                assert(white_space(b[k - a.len()]));
            }
        }
        lemma_trim_start(a + b, core);
        assert(a + core + b =~= (a + b) + core);
        lemma_trim_end(core, Seq::empty());
        assert(core + Seq::<char>::empty() =~= core);
    }
}

/// A text ends in a digit whose place is the number of the digit.
proof fn lemma_digit(d: nat)
    requires
        d < 10,
    ensures
        crate::text::digit(d).len() == 1,
        crate::text::digit(d)[0] as int == '0' as int + d,
{
    reveal_strlit("0");
    reveal_strlit("1");
    reveal_strlit("2");
    reveal_strlit("3");
    reveal_strlit("4");
    reveal_strlit("5");
    reveal_strlit("6");
    reveal_strlit("7");
    reveal_strlit("8");
    reveal_strlit("9");
}

/// The decimal digits of a number stand for it: reading them gives it back, they are digits, and
/// none but zero itself begins with a zero.
pub proof fn digits_stand_for_their_number(n: nat)
    ensures
        decimal_value(decimal(n)) == n,
        all_digits(decimal(n)),
        decimal(n).len() > 0,
        n > 0 ==> decimal(n)[0] != '0',
    decreases n,
{
    if n < 10 {
        lemma_digit(n);
        assert(decimal(n).drop_last() =~= Seq::<char>::empty());
        reveal_with_fuel(decimal_value, 2);
    } else {
        digits_stand_for_their_number(n / 10);
        lemma_digit(n % 10);
        let text = decimal(n);
        assert(text.drop_last() =~= decimal(n / 10));
        assert(text.last() as int == '0' as int + n % 10);
        assert(n == (n / 10) * 10 + n % 10);
        assert forall|k: int| 0 <= k < text.len() implies '0' <= #[trigger] text[k] <= '9' by {
            if k < text.len() - 1 {
                assert(text[k] == decimal(n / 10)[k]);
            }
        }
        assert(text[0] == decimal(n / 10)[0]);
    }
}

/// Which numbers are integers: those below two to the sixty-third, with a plus sign or none, and
/// that number itself with a minus sign too.
pub proof fn numbers_are_integers(n: nat)
    ensures
        is_integer(decimal(n)) <==> n < 0x8000_0000_0000_0000,
        is_integer(seq!['+'] + decimal(n)) <==> n < 0x8000_0000_0000_0000,
        is_integer(seq!['-'] + decimal(n)) <==> n <= 0x8000_0000_0000_0000,
{
    digits_stand_for_their_number(n);
    let d = decimal(n);
    assert('0' <= d[0] <= '9');
    assert((seq!['+'] + d).drop_first() =~= d);
    assert((seq!['-'] + d).drop_first() =~= d);
}

/// A text with anything but digits after its first character is no integer, nor is one without a
/// digit.
pub proof fn other_texts_are_no_integers(text: Seq<char>, k: int)
    ensures
        0 < k < text.len() && !('0' <= text[k] <= '9') ==> !is_integer(text),
        text.len() > 0 && !('0' <= text[0] <= '9') && text[0] != '+' && text[0] != '-'
            ==> !is_integer(text),
        text.len() == 0 ==> !is_integer(text),
        text.len() == 1 && (text[0] == '+' || text[0] == '-') ==> !is_integer(text),
{
    if 0 < k < text.len() {
        assert(text.drop_first()[k - 1] == text[k]);
    }
}

proof fn lemma_join_front(first: Seq<char>, rest: Seq<Seq<char>>, sep: Seq<char>)
    requires
        rest.len() > 0,
    ensures
        join(seq![first] + rest, sep) == first + sep + join(rest, sep),
    decreases rest.len(),
{
    let all = seq![first] + rest;
    if rest.len() == 1 {
        assert(all.drop_last() =~= seq![first]);
        assert(all.last() == rest[0]);
        assert(join(seq![first], sep) == first);
    } else {
        lemma_join_front(first, rest.drop_last(), sep);
        assert(all.drop_last() =~= seq![first] + rest.drop_last());
        assert(all.last() == rest.last());
        assert(join(all, sep) =~= first + sep + join(rest, sep));
    }
}

/// Splitting a text and joining its parts again gives the text back, and no part holds the
/// separator.
pub proof fn splitting_and_joining_agree(text: Seq<char>, sep: char)
    ensures
        join(split(text, sep), seq![sep]) == text,
        split(text, sep).len() > 0,
        forall|k: int|
            0 <= k < split(text, sep).len() ==> !(#[trigger] split(text, sep)[k]).contains(sep),
    decreases text.len(),
{
    lemma_find_char(text, sep);
    let k = find_char(text, sep);
    let parts = split(text, sep);
    if k < text.len() {
        let rest = text.skip(k + 1);
        splitting_and_joining_agree(rest, sep);
        lemma_join_front(text.take(k), split(rest, sep), seq![sep]);
        assert(text.take(k) + seq![sep] + rest =~= text);
        assert forall|j: int| 0 <= j < parts.len() implies !(#[trigger] parts[j]).contains(sep) by {
            if j > 0 {
                assert(parts[j] == split(rest, sep)[j - 1]);
            } else {
                assert(parts[0] == text.take(k));
            }
        }
    } else {
        assert(parts =~= seq![text]);
    }
}

/// Joining texts without the separator in them and splitting the result gives them back.
pub proof fn joining_and_splitting_agree(a: Seq<char>, b: Seq<char>, sep: char)
    requires
        !a.contains(sep),
    ensures
        split(a, sep) == seq![a],
        split(a + seq![sep] + b, sep) == seq![a] + split(b, sep),
{
    assert forall|i: int| 0 <= i < a.len() implies a[i] != sep by {
        assert(a.contains(a[i]));
    }
    lemma_find_char_unique(a, sep, a.len() as int);
    let text = a + seq![sep] + b;
    assert forall|i: int| 0 <= i < a.len() implies text[i] != sep by {
        assert(text[i] == a[i]);
    }
    assert(text[a.len() as int] == sep);
    lemma_find_char_unique(text, sep, a.len() as int);
    assert(text.take(a.len() as int) =~= a);
    assert(text.skip(a.len() as int + 1) =~= b);
}

/// What the lines of a text are: what stands before the first line break, without the carriage
/// return at its end, and then the lines of the rest; a last line without a break counts, and an
/// empty text has no lines.
pub proof fn lines_end_at_breaks(a: Seq<char>, b: Seq<char>)
    requires
        !a.contains('\n'),
    ensures
        lines(Seq::empty()).len() == 0,
        a.len() > 0 ==> lines(a) == seq![a],
        a.len() == 0 || a.last() != '\r' ==> lines(a + seq!['\n'] + b) == seq![a] + lines(b),
        lines(a + seq!['\r', '\n'] + b) == seq![a] + lines(b),
{
    assert forall|i: int| 0 <= i < a.len() implies a[i] != '\n' by {
        assert(a.contains(a[i]));
    }
    lemma_find_char_unique(a, '\n', a.len() as int);
    let one = a + seq!['\n'] + b;
    assert forall|i: int| 0 <= i < a.len() implies one[i] != '\n' by {
        assert(one[i] == a[i]);
    }
    assert(one[a.len() as int] == '\n');
    lemma_find_char_unique(one, '\n', a.len() as int);
    assert(one.take(a.len() as int) =~= a);
    assert(one.skip(a.len() as int + 1) =~= b);
    let two = a + seq!['\r', '\n'] + b;
    let n = a.len() as int + 1;
    assert forall|i: int| 0 <= i < n implies two[i] != '\n' by {
        if i < a.len() {
            assert(two[i] == a[i]);
        }
    }
    assert(two[n] == '\n');
    lemma_find_char_unique(two, '\n', n);
    assert(two.take(n) =~= a.push('\r'));
    assert(a.push('\r').drop_last() =~= a);
    assert(two.skip(n + 1) =~= b);
}

/// How many line breaks a text holds.
pub open spec fn breaks(text: Seq<char>) -> nat
    decreases text.len(),
{
    if text.len() == 0 {
        0
    } else {
        breaks(text.drop_first()) + (if text[0] == '\n' {
            1nat
        } else {
            0nat
        })
    }
}

proof fn lemma_breaks(a: Seq<char>, b: Seq<char>)
    ensures
        breaks(a + b) == breaks(a) + breaks(b),
    decreases a.len(),
{
    let text = a + b;
    if a.len() == 0 {
        assert(text =~= b);
    } else {
        lemma_breaks(a.drop_first(), b);
        assert(text.drop_first() =~= a.drop_first() + b);
        assert(text[0] == a[0]);
    }
}

proof fn lemma_no_breaks(a: Seq<char>)
    requires
        !a.contains('\n'),
    ensures
        breaks(a) == 0,
    decreases a.len(),
{
    if a.len() > 0 {
        assert(a.contains(a[0]));
        let rest = a.drop_first();
        assert(!rest.contains('\n')) by {
            if rest.contains('\n') {
                let k = choose|k: int| 0 <= k < rest.len() && rest[k] == '\n';
                assert(a[k + 1] == '\n');
            }
        }
        lemma_no_breaks(rest);
    }
}

/// A text has as many lines as line breaks, and one more where it does not end in one.
pub proof fn lines_are_counted_by_breaks(text: Seq<char>)
    ensures
        lines(text).len() == breaks(text) + (if text.len() > 0 && text.last() != '\n' {
            1nat
        } else {
            0nat
        }),
    decreases text.len(),
{
    lemma_find_char(text, '\n');
    let k = find_char(text, '\n');
    if text.len() > 0 {
        let a = text.take(k);
        assert(!a.contains('\n'));
        lemma_no_breaks(a);
        if k < text.len() {
            let rest = text.skip(k + 1);
            lines_are_counted_by_breaks(rest);
            assert(text =~= a + (seq!['\n'] + rest));
            lemma_breaks(a, seq!['\n'] + rest);
            lemma_breaks(seq!['\n'], rest);
            assert(seq!['\n'].drop_first() =~= Seq::<char>::empty());
            reveal_with_fuel(breaks, 2);
            if rest.len() > 0 {
                assert(text.last() == rest.last());
            } else {
                assert(text.last() == '\n');
            }
        } else {
            assert(a =~= text);
            assert(text.last() != '\n');
        }
    }
}

proof fn lemma_last_line(a: Seq<char>, b: Seq<char>)
    requires
        b.len() > 0,
        !b.contains('\n'),
        a.len() == 0 || a.last() == '\n',
    ensures
        lines(a + b).len() > 0,
        lines(a + b).last() == b,
    decreases a.len(),
{
    let text = a + b;
    lemma_find_char(a, '\n');
    let k = find_char(a, '\n');
    if a.len() == 0 {
        assert(text =~= b);
        lines_end_at_breaks(b, Seq::empty());
    } else {
        assert(a[a.len() - 1] == '\n');
        assert(k < a.len());
        let rest = a.skip(k + 1);
        if rest.len() > 0 {
            assert(rest.last() == a.last());
        }
        lemma_last_line(rest, b);
        assert forall|i: int| 0 <= i < k implies text[i] != '\n' by {
            assert(text[i] == a[i]);
        }
        assert(text[k] == '\n');
        lemma_find_char_unique(text, '\n', k);
        assert(text.skip(k + 1) =~= rest + b);
        let head = seq![strip_cr(text.take(k))];
        assert(lines(text) == head + lines(rest + b));
        assert((head + lines(rest + b)).last() == lines(rest + b).last());
    }
}

/// The place of something that does not stand at the start of a line: the number of its line, from
/// one on, and how many bytes stand before it on that line.
pub proof fn places_count_lines_and_bytes(text: Seq<char>, at: int, a: Seq<char>, b: Seq<char>)
    requires
        slice(text, 0, at) == a + b,
        a.len() == 0 || a.last() == '\n',
        b.len() > 0,
        !b.contains('\n'),
    ensures
        position(text, at) == (breaks(a) + 1, byte_len(b)),
{
    let before = a + b;
    lemma_last_line(a, b);
    lines_are_counted_by_breaks(before);
    lemma_breaks(a, b);
    lemma_no_breaks(b);
    assert(before.last() == b.last());
    assert(b.contains(b.last()));
}

/// The place of something at the start of a line: the number of the line before it, and the length
/// of that line; at the start of a text both are zero.
pub proof fn places_at_line_starts(text: Seq<char>, at: int, a: Seq<char>)
    requires
        slice(text, 0, at) == a,
        a.len() == 0 || a.last() == '\n',
    ensures
        position(text, at).0 == breaks(a),
        a.len() == 0 ==> position(text, at) == (0nat, 0nat),
{
    lines_are_counted_by_breaks(a);
}

/// The first place at which a pattern occurs is the one that is found.
pub proof fn first_occurrence_is_found(text: Seq<char>, pattern: Seq<char>, k: int)
    requires
        pattern.len() > 0,
        occurs_at(text, pattern, k),
        forall|j: int| 0 <= j < k ==> !occurs_at(text, pattern, j),
    ensures
        find_text(text, pattern) == k,
{
    lemma_find_text(text, pattern, k);
}

/// What a call of `free` in a text frees: what stands between the first parentheses, without the
/// white space round it, and nothing where that is empty.
pub proof fn first_parentheses_hold_what_is_freed(a: Seq<char>, b: Seq<char>, c: Seq<char>)
    requires
        !a.contains('('),
        !a.contains(')'),
        !b.contains(')'),
    ensures
        ({
            let text = a + seq!['('] + b + seq![')'] + c;
            &&& trim(b).len() > 0 ==> freed_name(text) == Some(trim(b))
            &&& trim(b).len() == 0 ==> freed_name(text) is None
        }),
{
    let text = a + seq!['('] + b + seq![')'] + c;
    let n = a.len() as int;
    let m = n + 1 + b.len();
    assert forall|i: int| 0 <= i < n implies text[i] != '(' && text[i] != ')' by {
        assert(a.contains(a[i]));
        assert(text[i] == a[i]);
    }
    assert(text[n] == '(');
    lemma_find_char_unique(text, '(', n);
    assert forall|i: int| 0 <= i < m implies text[i] != ')' by {
        if i > n {
            assert(text[i] == b[i - n - 1]);
            assert(b.contains(b[i - n - 1]));
        }
    }
    assert(text[m] == ')');
    lemma_find_char_unique(text, ')', m);
    assert(text.subrange(n + 1, m) =~= b);
}

/// A text without an opening parenthesis, or without a closing one, frees nothing.
pub proof fn without_parentheses_nothing_is_freed(text: Seq<char>)
    requires
        !text.contains('(') || !text.contains(')'),
    ensures
        freed_name(text) is None,
{
    lemma_find_char(text, '(');
    lemma_find_char(text, ')');
}

proof fn lemma_closing(s: Seq<char>, k: int)
    requires
        0 < k <= s.len() + 1,
        !s.contains('('),
        !s.contains(')'),
    ensures
        closing(seq!['('] + s + seq![')'], k, 1) == s.len() + 1,
    decreases s.len() + 1 - k,
{
    let text = seq!['('] + s + seq![')'];
    if k == s.len() + 1 {
        assert(text[k] == ')');
    } else {
        assert(text[k] == s[k - 1]);
        assert(s.contains(s[k - 1]));
        lemma_closing(s, k + 1);
    }
}

/// Parentheses round a text do not count, nor does white space; and a text that does not begin with
/// a parenthesis is only trimmed.
pub proof fn parentheses_do_not_count(text: Seq<char>, s: Seq<char>)
    ensures
        trim(text) == seq!['('] + s + seq![')'] && !s.contains('(') && !s.contains(')') ==> bare(
            text,
        ) == bare(s),
        trim(text).len() == 0 || trim(text)[0] != '(' ==> bare(text) == trim(text),
{
    let t = seq!['('] + s + seq![')'];
    if trim(text) == t && !s.contains('(') && !s.contains(')') {
        lemma_closing(s, 1);
        assert(t[0] == '(');
        assert(t.subrange(1, t.len() - 1) =~= s);
    }
}

/// A condition that compares with null or with zero shows that what stands before its first `!=` is
/// not null.
pub proof fn comparisons_check_their_left_side(text: Seq<char>, k: int)
    requires
        occurs_at(text, "!="@, k),
        forall|j: int| 0 <= j < k ==> !occurs_at(text, "!="@, j),
        mentions(text, "!= NULL"@) || mentions(text, "!= 0"@),
    ensures
        checked_name(text) == Some(bare(text.take(k))),
{
    reveal_strlit("!=");
    assert("!="@.len() == 2);
    lemma_find_text(text, "!="@, k);
    assert(mentions(text, "!="@));
}

/// Any other condition shows that a variable is not null where it is the name of one, and otherwise
/// nothing.
pub proof fn names_check_themselves(text: Seq<char>)
    requires
        !mentions(text, "!= NULL"@),
        !mentions(text, "!= 0"@),
    ensures
        ({
            let name = bare(text);
            let proper = name.len() > 0 && !('0' <= name[0] <= '9') && forall|k: int|
                0 <= k < name.len() ==> alphanumeric(#[trigger] name[k]) || name[k] == '_';
            &&& proper ==> checked_name(text) == Some(name)
            &&& !proper ==> checked_name(text) is None
        }),
{
}

proof fn lemma_less_after(p: Seq<char>, x: Seq<char>, y: Seq<char>)
    ensures
        less(p + x, p + y) == less(x, y),
    decreases p.len(),
{
    if p.len() == 0 {
        assert(p + x =~= x);
        assert(p + y =~= y);
    } else {
        let rest = p.drop_first();
        lemma_less_after(rest, x, y);
        assert((p + x).drop_first() =~= rest + x);
        assert((p + y).drop_first() =~= rest + y);
        assert((p + x)[0] == p[0]);
        assert((p + y)[0] == p[0]);
    }
}

/// How texts are ordered: by the first character in which they differ, and a text stands before
/// its continuations.
pub proof fn first_difference_decides(
    p: Seq<char>,
    c: char,
    x: Seq<char>,
    d: char,
    y: Seq<char>,
)
    ensures
        c != d ==> less(p + (seq![c] + x), p + (seq![d] + y)) == ((c as u32) < (d as u32)),
        less(p, p + (seq![c] + x)),
        !less(p + (seq![c] + x), p),
{
    let a = seq![c] + x;
    let b = seq![d] + y;
    lemma_less_after(p, a, b);
    lemma_less_after(p, Seq::empty(), a);
    lemma_less_after(p, a, Seq::empty());
    assert(p + Seq::<char>::empty() =~= p);
    assert(a[0] == c);
    assert(b[0] == d);
}

/// A text that is repeated is as long as all its copies, and each stands in its place.
pub proof fn repeated_texts_are_copies(text: Seq<char>, n: nat, k: int)
    requires
        0 <= k < n,
    ensures
        repeated(text, n).len() == text.len() * n,
        repeated(text, n).subrange(text.len() * k, text.len() * k + text.len()) == text,
    decreases n,
{
    lemma_repeated_len(text, n);
    lemma_repeated_len(text, (n - 1) as nat);
    let before = repeated(text, (n - 1) as nat);
    assert(text.len() * n == text.len() * (n - 1) + text.len()) by (nonlinear_arith);
    if k < n - 1 {
        repeated_texts_are_copies(text, (n - 1) as nat, k);
        assert(text.len() * k + text.len() <= text.len() * (n - 1)) by (nonlinear_arith)
            requires
                k < n - 1,
        ;
        assert(0 <= text.len() * k) by (nonlinear_arith)
            requires
                0 <= k,
        ;
        assert(repeated(text, n).subrange(text.len() * k, text.len() * k + text.len())
            =~= before.subrange(text.len() * k, text.len() * k + text.len()));
    } else {
        assert(repeated(text, n).subrange(text.len() * k, text.len() * k + text.len()) =~= text);
    }
}

proof fn lemma_repeated_len(text: Seq<char>, n: nat)
    ensures
        repeated(text, n).len() == text.len() * n,
    decreases n,
{
    if n > 0 {
        lemma_repeated_len(text, (n - 1) as nat);
        assert(text.len() * n == text.len() * (n - 1) + text.len()) by (nonlinear_arith);
    } else {
        assert(text.len() * n == 0) by (nonlinear_arith)
            requires
                n == 0,
        ;
    }
}

/// A text mentions a pattern where it is the pattern with something before it and something after.
pub proof fn mentioned_patterns_stand_in_the_text(text: Seq<char>, pattern: Seq<char>)
    ensures
        mentions(text, pattern) <==> exists|a: Seq<char>, b: Seq<char>|
            text == #[trigger] (a + pattern + b),
{
    if mentions(text, pattern) {
        let i = choose|i: int| occurs_at(text, pattern, i);
        let a = text.take(i);
        let b = text.skip(i + pattern.len());
        assert(text.subrange(i, i + pattern.len()) == pattern);
        assert(text =~= a + text.subrange(i, i + pattern.len()) + b);
    }
    if exists|a: Seq<char>, b: Seq<char>| text == #[trigger] (a + pattern + b) {
        let (a, b) = choose|a: Seq<char>, b: Seq<char>| text == #[trigger] (a + pattern + b);
        let i = a.len() as int;
        assert(text.subrange(i, i + pattern.len()) =~= pattern);
        assert(occurs_at(text, pattern, i));
    }
}

proof fn lemma_last_closed_line(a: Seq<char>, b: Seq<char>)
    requires
        !b.contains('\n'),
        b.len() == 0 || b.last() != '\r',
        a.len() == 0 || a.last() == '\n',
    ensures
        lines(a + b + seq!['\n']).len() > 0,
        lines(a + b + seq!['\n']).last() == b,
    decreases a.len(),
{
    let text = a + b + seq!['\n'];
    lemma_find_char(a, '\n');
    let k = find_char(a, '\n');
    if a.len() == 0 {
        assert(text =~= b + seq!['\n'] + Seq::<char>::empty());
        lines_end_at_breaks(b, Seq::empty());
        assert(lines(text) =~= seq![b]);
    } else {
        assert(a[a.len() - 1] == '\n');
        assert(k < a.len());
        let rest = a.skip(k + 1);
        if rest.len() > 0 {
            assert(rest.last() == a.last());
        }
        lemma_last_closed_line(rest, b);
        assert forall|i: int| 0 <= i < k implies text[i] != '\n' by {
            assert(text[i] == a[i]);
        }
        assert(text[k] == '\n');
        lemma_find_char_unique(text, '\n', k);
        let tail = rest + b + seq!['\n'];
        assert(text.skip(k + 1) =~= tail);
        let head = seq![strip_cr(text.take(k))];
        assert(lines(text) == head + lines(tail));
        assert((head + lines(tail)).last() == lines(tail).last());
    }
}

/// The column of something at the start of a line is the length of the line before it, in bytes.
pub proof fn columns_at_line_starts(text: Seq<char>, at: int, a: Seq<char>, b: Seq<char>)
    requires
        slice(text, 0, at) == a + b + seq!['\n'],
        a.len() == 0 || a.last() == '\n',
        !b.contains('\n'),
        b.len() == 0 || b.last() != '\r',
    ensures
        position(text, at) == (breaks(a) + 1, byte_len(b)),
{
    lemma_last_closed_line(a, b);
    let before = a + b + seq!['\n'];
    lines_are_counted_by_breaks(before);
    lemma_breaks(a + b, seq!['\n']);
    lemma_breaks(a, b);
    lemma_no_breaks(b);
    assert(seq!['\n'].drop_first() =~= Seq::<char>::empty());
    reveal_with_fuel(breaks, 2);
    assert(before.last() == '\n');
}

} // verus!
