//! The names that the writer invents never collide: labels with different
//! numbers differ, and so do static variables of different files.

use crate::text::{
    decimal, lemma_decimal_injective, lemma_decimal_lacks, lemma_same_prefix, lemma_split_at_last,
};
use crate::vm_translator::code_writer::{
    call_code, compare_code, comparison_jump, end_label, loop_end_label, loop_start_label,
    number_argument, return_label, static_symbol, translate, true_label, TranslationErrorKind,
    WriterState,
};
use crate::text::file_stem;
use crate::vm_translator::parser::{CommandType, CommandView};
use crate::machine::instruction::{Jump, Line};
use vstd::prelude::*;

verus! {

/// The two labels of a comparison differ from the two labels of every
/// comparison with another number.
pub proof fn lemma_comparison_labels_disjoint(m: nat, n: nat)
    requires
        m != n,
    ensures
        true_label(m) != true_label(n),
        true_label(m) != end_label(n),
        end_label(m) != true_label(n),
        end_label(m) != end_label(n),
        true_label(m) != end_label(m),
{
    reveal_strlit("TRUE_");
    reveal_strlit("END_");
    if true_label(m) == true_label(n) {
        lemma_same_prefix("TRUE_"@, decimal(m), decimal(n));
        lemma_decimal_injective(m, n);
    }
    if end_label(m) == end_label(n) {
        lemma_same_prefix("END_"@, decimal(m), decimal(n));
        lemma_decimal_injective(m, n);
    }
    assert(true_label(m)[0] == 'T');
    assert(true_label(n)[0] == 'T');
    assert(end_label(m)[0] == 'E');
    assert(end_label(n)[0] == 'E');
}

/// The two labels of the loop that clears a function's local variables differ
/// from those of every such loop with another number.
pub proof fn lemma_loop_labels_disjoint(m: nat, n: nat)
    requires
        m != n,
    ensures
        loop_start_label(m) != loop_start_label(n),
        loop_start_label(m) != loop_end_label(n),
        loop_end_label(m) != loop_start_label(n),
        loop_end_label(m) != loop_end_label(n),
        loop_start_label(m) != loop_end_label(m),
{
    reveal_strlit("func_init.loop_start.");
    reveal_strlit("func_init.loop_end.");
    if loop_start_label(m) == loop_start_label(n) {
        lemma_same_prefix("func_init.loop_start."@, decimal(m), decimal(n));
        lemma_decimal_injective(m, n);
    }
    if loop_end_label(m) == loop_end_label(n) {
        lemma_same_prefix("func_init.loop_end."@, decimal(m), decimal(n));
        lemma_decimal_injective(m, n);
    }
    assert(loop_start_label(m)[15] == 's');
    assert(loop_start_label(n)[15] == 's');
    assert(loop_end_label(m)[15] == 'e');
    assert(loop_end_label(n)[15] == 'e');
}

/// Return addresses with different numbers have different labels, whatever
/// the files they stand in.
pub proof fn lemma_return_labels_differ(stem1: Seq<char>, m: nat, stem2: Seq<char>, n: nat)
    requires
        m != n,
    ensures
        return_label(stem1, m) != return_label(stem2, n),
{
    reveal_strlit("$");
    if return_label(stem1, m) == return_label(stem2, n) {
        lemma_decimal_lacks(m, '$');
        lemma_decimal_lacks(n, '$');
        assert("$"@ =~= seq!['$']);
        lemma_split_at_last(
            stem1 + ".ret"@ + decimal(m),
            decimal(m),
            stem2 + ".ret"@ + decimal(n),
            decimal(n),
            '$',
        );
        lemma_decimal_injective(m, n);
    }
}

/// A static variable's name tells its file and its index: two names are
/// equal only where both the stems of the files and the indexes are. So a
/// static variable of one file is never one of another file.
pub proof fn lemma_static_symbols_scoped(stem1: Seq<char>, i: nat, stem2: Seq<char>, j: nat)
    requires
        static_symbol(stem1, i) == static_symbol(stem2, j),
    ensures
        stem1 == stem2,
        i == j,
{
    reveal_strlit(".");
    lemma_decimal_lacks(i, '.');
    lemma_decimal_lacks(j, '.');
    assert("."@ =~= seq!['.']);
    lemma_split_at_last(stem1, decimal(i), stem2, decimal(j), '.');
    lemma_decimal_injective(i, j);
}

/// The state of a writer that started in `w` and translated the first `n`
/// of `commands`, or the reason why one of them could not be translated.
pub open spec fn translate_all(commands: Seq<CommandView>, n: int, w: WriterState) -> Result<
    WriterState,
    TranslationErrorKind,
>
    decreases n,
{
    if n <= 0 {
        Ok(w)
    } else {
        match translate_all(commands, n - 1, w) {
            Ok(before) => translate(commands[n - 1], before),
            Err(kind) => Err(kind),
        }
    }
}

/// Whether a command is one of the three comparisons.
pub open spec fn is_comparison(c: CommandView) -> bool {
    c.command_type == CommandType::Arithmetic && comparison_jump(c.arg1) is Some
}

/// No command moves a counter back, a comparison moves the comparison
/// counter on by one, and a call the return counter.
pub proof fn lemma_counters_grow(c: CommandView, w: WriterState)
    requires
        translate(c, w) is Ok,
    ensures
        ({
            let after = translate(c, w)->Ok_0;
            &&& after.comparison_counter >= w.comparison_counter
            &&& after.return_counter >= w.return_counter
            &&& after.function_init_counter >= w.function_init_counter
            &&& is_comparison(c) ==> after.comparison_counter == w.comparison_counter + 1
            &&& c.command_type == CommandType::Call ==> after.return_counter == w.return_counter
                + 1
            &&& c.command_type == CommandType::Function ==> after.function_init_counter
                == w.function_init_counter + 1
        }),
{
    reveal_strlit("add");
    reveal_strlit("sub");
    reveal_strlit("and");
    reveal_strlit("or");
    reveal_strlit("neg");
    reveal_strlit("not");
    reveal_strlit("eq");
    reveal_strlit("gt");
    reveal_strlit("lt");
    assert("add"@[0] == 'a' && "sub"@[0] == 's' && "and"@[0] == 'a' && "or"@[0] == 'o');
    assert("neg"@[0] == 'n' && "not"@[0] == 'n');
    assert("eq"@[0] == 'e' && "gt"@[0] == 'g' && "lt"@[0] == 'l');
}

/// The counters after the first `j` commands are at least what they were
/// after the first `i`.
pub proof fn lemma_counters_grow_all(commands: Seq<CommandView>, i: int, j: int, w: WriterState)
    requires
        0 <= i <= j <= commands.len(),
        translate_all(commands, j, w) is Ok,
    ensures
        translate_all(commands, i, w) is Ok,
        translate_all(commands, i, w)->Ok_0.comparison_counter <= translate_all(
            commands,
            j,
            w,
        )->Ok_0.comparison_counter,
        translate_all(commands, i, w)->Ok_0.return_counter <= translate_all(
            commands,
            j,
            w,
        )->Ok_0.return_counter,
        translate_all(commands, i, w)->Ok_0.function_init_counter <= translate_all(
            commands,
            j,
            w,
        )->Ok_0.function_init_counter,
    decreases j - i,
{
    if i < j {
        let before = translate_all(commands, j - 1, w);
        assert(before is Ok);
        lemma_counters_grow(commands[j - 1], before->Ok_0);
        lemma_counters_grow_all(commands, i, j - 1, w);
    }
}

/// Two comparisons of one program never share a label.
///
/// Where commands `i` and `j` of a program are both comparisons, the writer
/// numbers the labels of the earlier one with a smaller number than those of
/// the later one, and none of the four labels is the same as another.
pub proof fn lemma_comparisons_share_no_label(
    commands: Seq<CommandView>,
    i: int,
    j: int,
    w: WriterState,
)
    requires
        0 <= i < j < commands.len(),
        is_comparison(commands[i]),
        is_comparison(commands[j]),
        translate_all(commands, j + 1, w) is Ok,
    ensures
        translate_all(commands, i, w) is Ok,
        translate_all(commands, j, w) is Ok,
        ({
            let first = translate_all(commands, i, w)->Ok_0;
            let second = translate_all(commands, j, w)->Ok_0;
            let m = first.comparison_counter;
            let n = second.comparison_counter;
            &&& translate_all(commands, i + 1, w)->Ok_0.code == first.code + compare_code(
                comparison_jump(commands[i].arg1)->0,
                m,
            )
            &&& translate_all(commands, j + 1, w)->Ok_0.code == second.code + compare_code(
                comparison_jump(commands[j].arg1)->0,
                n,
            )
            &&& m < n
            &&& true_label(m) != true_label(n)
            &&& true_label(m) != end_label(n)
            &&& end_label(m) != true_label(n)
            &&& end_label(m) != end_label(n)
        }),
{
    lemma_counters_grow_all(commands, j, j + 1, w);
    lemma_counters_grow_all(commands, i + 1, j, w);
    lemma_counters_grow_all(commands, i, i + 1, w);
    let first = translate_all(commands, i, w)->Ok_0;
    let second = translate_all(commands, j, w)->Ok_0;
    lemma_counters_grow(commands[i], first);
    lemma_counters_grow(commands[j], second);
    lemma_comparison_labels_disjoint(first.comparison_counter, second.comparison_counter);
}

/// Two calls of one program never return to the same label.
pub proof fn lemma_calls_share_no_label(
    commands: Seq<CommandView>,
    i: int,
    j: int,
    w: WriterState,
)
    requires
        0 <= i < j < commands.len(),
        commands[i].command_type == CommandType::Call,
        commands[j].command_type == CommandType::Call,
        translate_all(commands, j + 1, w) is Ok,
    ensures
        translate_all(commands, i, w) is Ok,
        translate_all(commands, j, w) is Ok,
        ({
            let first = translate_all(commands, i, w)->Ok_0;
            let second = translate_all(commands, j, w)->Ok_0;
            let m = first.return_counter;
            let n = second.return_counter;
            let stem1 = file_stem(commands[i].file_name);
            let stem2 = file_stem(commands[j].file_name);
            &&& translate_all(commands, i + 1, w)->Ok_0.code == first.code + call_code(
                commands[i].arg1,
                number_argument(commands[i])->Ok_0,
                return_label(stem1, m),
            )
            &&& translate_all(commands, j + 1, w)->Ok_0.code == second.code + call_code(
                commands[j].arg1,
                number_argument(commands[j])->Ok_0,
                return_label(stem2, n),
            )
            &&& m < n
            &&& return_label(stem1, m) != return_label(stem2, n)
        }),
{
    lemma_counters_grow_all(commands, j, j + 1, w);
    lemma_counters_grow_all(commands, i + 1, j, w);
    lemma_counters_grow_all(commands, i, i + 1, w);
    let first = translate_all(commands, i, w)->Ok_0;
    let second = translate_all(commands, j, w)->Ok_0;
    lemma_counters_grow(commands[i], first);
    lemma_counters_grow(commands[j], second);
    lemma_return_labels_differ(
        file_stem(commands[i].file_name),
        first.return_counter,
        file_stem(commands[j].file_name),
        second.return_counter,
    );
}

/// A comparison names no labels but its own two.
///
/// The code of a comparison declares two labels, the pair with its number,
/// and jumps to these two only: every other symbol in it is the stack
/// pointer. So the code of two comparisons with different numbers declares
/// no label twice.
pub proof fn lemma_comparison_names_its_own_labels(jump: Jump, n: nat, k: int)
    requires
        0 <= k < compare_code(jump, n).len(),
    ensures
        compare_code(jump, n).len() == 20,
        compare_code(jump, n)[k] matches Line::Label(name) ==> (name == true_label(n) && k == 15)
            || (name == end_label(n) && k == 19),
        compare_code(jump, n)[k] matches Line::Symbol(name) ==> name == "SP"@ || (name
            == true_label(n) && k == 8) || (name == end_label(n) && k == 13),
{
    let code = compare_code(jump, n);
    assert(code.len() == 20);
    if k == 0 {
    } else if k == 1 {
    } else if k == 2 {
    } else if k == 3 {
    } else if k == 4 {
    } else if k == 5 {
    } else if k == 6 {
    } else if k == 7 {
    } else if k == 8 {
    } else if k == 9 {
    } else if k == 10 {
    } else if k == 11 {
    } else if k == 12 {
    } else if k == 13 {
    } else if k == 14 {
    } else if k == 15 {
    } else if k == 16 {
    } else if k == 17 {
    } else if k == 18 {
    } else {
    }
}

/// The code of two comparisons with different numbers declares no label twice.
pub proof fn lemma_comparisons_declare_no_label_twice(
    jump1: Jump,
    m: nat,
    a: int,
    jump2: Jump,
    n: nat,
    b: int,
)
    requires
        m != n,
        0 <= a < compare_code(jump1, m).len(),
        0 <= b < compare_code(jump2, n).len(),
        compare_code(jump1, m)[a] is Label,
        compare_code(jump2, n)[b] is Label,
    ensures
        compare_code(jump1, m)[a] != compare_code(jump2, n)[b],
{
    lemma_comparison_names_its_own_labels(jump1, m, a);
    lemma_comparison_names_its_own_labels(jump2, n, b);
    lemma_comparison_labels_disjoint(m, n);
}

} // verus!
