//! The assembler understands the lines that the code writer writes, and
//! gives every computation the bits of its parts.

use crate::assembler::assembler::label_name;
use crate::assembler::parser::{
    a_instruction, field_end, instruction_line, instruction_text, is_separator, label_line, parse,
    parse_a, parse_c, AssembleErrorKind, InstructionView, LineType,
};
use crate::assembler::symbol_table::SymbolTableView;
use crate::assembler::translator::{
    a_code, comp_code, dest_code, jump_code, machine_code, translatable,
};
use crate::machine::instruction::{
    comp_text, dest_is_empty, dest_text, jump_text, render, Comp, Dest, Jump, Line,
};
use crate::text::{
    decimal, has_char, index_of, is_digit, is_space, is_u32_literal, leading_spaces,
    lemma_decimal_round_trip, lemma_no_comment, strip_comment, trailing_spaces, trimmed,
    u32_literal_value, unsigned_digits,
};
use vstd::prelude::*;

verus! {

/// The bit that says whether a register is among the destinations.
pub open spec fn bit(b: bool) -> char {
    if b {
        '1'
    } else {
        '0'
    }
}

/// The three bits of a destination: one each for the address register, the
/// data register and the memory.
pub open spec fn dest_bits(d: Dest) -> Seq<char> {
    seq![bit(d.a), bit(d.d), bit(d.m)]
}

/// The three bits of a jump: one each for a value below zero, a value of
/// zero and a value above zero.
pub open spec fn jump_bits(j: Jump) -> Seq<char> {
    seq![
        bit(j == Jump::Less || j == Jump::NotEqual || j == Jump::LessEqual || j == Jump::Always),
        bit(
            j == Jump::Equal || j == Jump::GreaterEqual || j == Jump::LessEqual || j
                == Jump::Always,
        ),
        bit(
            j == Jump::Greater || j == Jump::GreaterEqual || j == Jump::NotEqual || j
                == Jump::Always,
        ),
    ]
}

/// The seven bits of a computation: the bit that chooses between the
/// address register and the memory, and the six bits that steer the
/// arithmetic unit.
pub open spec fn comp_bits(c: Comp) -> Seq<char> {
    match c {
        Comp::Zero => "0101010"@,
        Comp::One => "0111111"@,
        Comp::MinusOne => "0111010"@,
        Comp::D => "0001100"@,
        Comp::A => "0110000"@,
        Comp::NotD => "0001101"@,
        Comp::NotA => "0110001"@,
        Comp::NegD => "0001111"@,
        Comp::NegA => "0110011"@,
        Comp::DPlusOne => "0011111"@,
        Comp::APlusOne => "0110111"@,
        Comp::DMinusOne => "0001110"@,
        Comp::AMinusOne => "0110010"@,
        Comp::DPlusA => "0000010"@,
        Comp::DMinusA => "0010011"@,
        Comp::AMinusD => "0000111"@,
        Comp::DAndA => "0000000"@,
        Comp::DOrA => "0010101"@,
        Comp::M => "1110000"@,
        Comp::NotM => "1110001"@,
        Comp::NegM => "1110011"@,
        Comp::MPlusOne => "1110111"@,
        Comp::MMinusOne => "1110010"@,
        Comp::DPlusM => "1000010"@,
        Comp::DMinusM => "1010011"@,
        Comp::MMinusD => "1000111"@,
        Comp::DAndM => "1000000"@,
        Comp::DOrM => "1010101"@,
    }
}

/// Whether a character can stand in a mnemonic or a numeral: it is no
/// space, and none of the characters that structure a line.
pub open spec fn is_plain(c: char) -> bool {
    !is_space(c) && c != '/' && c != '=' && c != ';' && c != '@' && c != '('
}

/// Whether a text is made of plain characters only.
pub open spec fn is_plain_text(s: Seq<char>) -> bool {
    forall|i: int| 0 <= i < s.len() ==> is_plain(#[trigger] s[i])
}

proof fn lemma_dest_texts(d: Dest)
    ensures
        is_plain_text(dest_text(d)),
        dest_is_empty(d) <==> dest_text(d).len() == 0,
        !dest_is_empty(d) ==> dest_code(Some(dest_text(d))) == Some(dest_bits(d)),
        dest_code(None) == Some(dest_bits(Dest { a: false, d: false, m: false })),
{
    reveal_strlit("");
    reveal_strlit("M");
    assert("M"@.len() == 1 && "M"@[0] == 'M');
    reveal_strlit("D");
    assert("D"@.len() == 1 && "D"@[0] == 'D');
    reveal_strlit("MD");
    assert("MD"@.len() == 2 && "MD"@[0] == 'M' && "MD"@[1] == 'D');
    reveal_strlit("A");
    assert("A"@.len() == 1 && "A"@[0] == 'A');
    reveal_strlit("AM");
    assert("AM"@.len() == 2 && "AM"@[0] == 'A' && "AM"@[1] == 'M');
    reveal_strlit("AD");
    assert("AD"@.len() == 2 && "AD"@[0] == 'A' && "AD"@[1] == 'D');
    reveal_strlit("AMD");
    assert("AMD"@.len() == 3 && "AMD"@[0] == 'A' && "AMD"@[1] == 'M' && "AMD"@[2] == 'D');
    reveal_strlit("000");
    assert("000"@.len() == 3 && "000"@[0] == '0' && "000"@[1] == '0' && "000"@[2] == '0');
    reveal_strlit("001");
    assert("001"@.len() == 3 && "001"@[0] == '0' && "001"@[1] == '0' && "001"@[2] == '1');
    reveal_strlit("010");
    assert("010"@.len() == 3 && "010"@[0] == '0' && "010"@[1] == '1' && "010"@[2] == '0');
    reveal_strlit("011");
    assert("011"@.len() == 3 && "011"@[0] == '0' && "011"@[1] == '1' && "011"@[2] == '1');
    reveal_strlit("100");
    assert("100"@.len() == 3 && "100"@[0] == '1' && "100"@[1] == '0' && "100"@[2] == '0');
    reveal_strlit("101");
    assert("101"@.len() == 3 && "101"@[0] == '1' && "101"@[1] == '0' && "101"@[2] == '1');
    reveal_strlit("110");
    assert("110"@.len() == 3 && "110"@[0] == '1' && "110"@[1] == '1' && "110"@[2] == '0');
    reveal_strlit("111");
    assert("111"@.len() == 3 && "111"@[0] == '1' && "111"@[1] == '1' && "111"@[2] == '1');
    assert(dest_code(None) =~= Some(dest_bits(Dest { a: false, d: false, m: false })));
    if !dest_is_empty(d) {
        assert(dest_code(Some(dest_text(d)))->0 =~= dest_bits(d));
    }
}

proof fn lemma_jump_texts(j: Jump)
    ensures
        is_plain_text(jump_text(j)),
        j == Jump::Never <==> jump_text(j).len() == 0,
        j != Jump::Never ==> jump_code(Some(jump_text(j))) == Some(jump_bits(j)),
        jump_code(None) == Some(jump_bits(Jump::Never)),
{
    reveal_strlit("");
    reveal_strlit("JGT");
    assert("JGT"@.len() == 3 && "JGT"@[0] == 'J' && "JGT"@[1] == 'G' && "JGT"@[2] == 'T');
    reveal_strlit("JEQ");
    assert("JEQ"@.len() == 3 && "JEQ"@[0] == 'J' && "JEQ"@[1] == 'E' && "JEQ"@[2] == 'Q');
    reveal_strlit("JGE");
    assert("JGE"@.len() == 3 && "JGE"@[0] == 'J' && "JGE"@[1] == 'G' && "JGE"@[2] == 'E');
    reveal_strlit("JLT");
    assert("JLT"@.len() == 3 && "JLT"@[0] == 'J' && "JLT"@[1] == 'L' && "JLT"@[2] == 'T');
    reveal_strlit("JNE");
    assert("JNE"@.len() == 3 && "JNE"@[0] == 'J' && "JNE"@[1] == 'N' && "JNE"@[2] == 'E');
    reveal_strlit("JLE");
    assert("JLE"@.len() == 3 && "JLE"@[0] == 'J' && "JLE"@[1] == 'L' && "JLE"@[2] == 'E');
    reveal_strlit("JMP");
    assert("JMP"@.len() == 3 && "JMP"@[0] == 'J' && "JMP"@[1] == 'M' && "JMP"@[2] == 'P');
    reveal_strlit("000");
    assert("000"@.len() == 3 && "000"@[0] == '0' && "000"@[1] == '0' && "000"@[2] == '0');
    reveal_strlit("001");
    assert("001"@.len() == 3 && "001"@[0] == '0' && "001"@[1] == '0' && "001"@[2] == '1');
    reveal_strlit("010");
    assert("010"@.len() == 3 && "010"@[0] == '0' && "010"@[1] == '1' && "010"@[2] == '0');
    reveal_strlit("011");
    assert("011"@.len() == 3 && "011"@[0] == '0' && "011"@[1] == '1' && "011"@[2] == '1');
    reveal_strlit("100");
    assert("100"@.len() == 3 && "100"@[0] == '1' && "100"@[1] == '0' && "100"@[2] == '0');
    reveal_strlit("101");
    assert("101"@.len() == 3 && "101"@[0] == '1' && "101"@[1] == '0' && "101"@[2] == '1');
    reveal_strlit("110");
    assert("110"@.len() == 3 && "110"@[0] == '1' && "110"@[1] == '1' && "110"@[2] == '0');
    reveal_strlit("111");
    assert("111"@.len() == 3 && "111"@[0] == '1' && "111"@[1] == '1' && "111"@[2] == '1');
    assert(jump_code(None) =~= Some(jump_bits(Jump::Never)));
    if j != Jump::Never {
        assert(jump_code(Some(jump_text(j)))->0 =~= jump_bits(j));
    }
}

proof fn lemma_comp_texts(c: Comp)
    ensures
        is_plain_text(comp_text(c)),
        comp_text(c).len() > 0,
        comp_code(Some(comp_text(c))) == Some(comp_bits(c)),
{
    reveal_strlit("0");
    assert("0"@.len() == 1 && "0"@[0] == '0');
    reveal_strlit("1");
    assert("1"@.len() == 1 && "1"@[0] == '1');
    reveal_strlit("-1");
    assert("-1"@.len() == 2 && "-1"@[0] == '-' && "-1"@[1] == '1');
    reveal_strlit("D");
    assert("D"@.len() == 1 && "D"@[0] == 'D');
    reveal_strlit("A");
    assert("A"@.len() == 1 && "A"@[0] == 'A');
    reveal_strlit("!D");
    assert("!D"@.len() == 2 && "!D"@[0] == '!' && "!D"@[1] == 'D');
    reveal_strlit("!A");
    assert("!A"@.len() == 2 && "!A"@[0] == '!' && "!A"@[1] == 'A');
    reveal_strlit("-D");
    assert("-D"@.len() == 2 && "-D"@[0] == '-' && "-D"@[1] == 'D');
    reveal_strlit("-A");
    assert("-A"@.len() == 2 && "-A"@[0] == '-' && "-A"@[1] == 'A');
    reveal_strlit("D+1");
    assert("D+1"@.len() == 3 && "D+1"@[0] == 'D' && "D+1"@[1] == '+' && "D+1"@[2] == '1');
    reveal_strlit("A+1");
    assert("A+1"@.len() == 3 && "A+1"@[0] == 'A' && "A+1"@[1] == '+' && "A+1"@[2] == '1');
    reveal_strlit("D-1");
    assert("D-1"@.len() == 3 && "D-1"@[0] == 'D' && "D-1"@[1] == '-' && "D-1"@[2] == '1');
    reveal_strlit("A-1");
    assert("A-1"@.len() == 3 && "A-1"@[0] == 'A' && "A-1"@[1] == '-' && "A-1"@[2] == '1');
    reveal_strlit("D+A");
    assert("D+A"@.len() == 3 && "D+A"@[0] == 'D' && "D+A"@[1] == '+' && "D+A"@[2] == 'A');
    reveal_strlit("D-A");
    assert("D-A"@.len() == 3 && "D-A"@[0] == 'D' && "D-A"@[1] == '-' && "D-A"@[2] == 'A');
    reveal_strlit("A-D");
    assert("A-D"@.len() == 3 && "A-D"@[0] == 'A' && "A-D"@[1] == '-' && "A-D"@[2] == 'D');
    reveal_strlit("D&A");
    assert("D&A"@.len() == 3 && "D&A"@[0] == 'D' && "D&A"@[1] == '&' && "D&A"@[2] == 'A');
    reveal_strlit("D|A");
    assert("D|A"@.len() == 3 && "D|A"@[0] == 'D' && "D|A"@[1] == '|' && "D|A"@[2] == 'A');
    reveal_strlit("M");
    assert("M"@.len() == 1 && "M"@[0] == 'M');
    reveal_strlit("!M");
    assert("!M"@.len() == 2 && "!M"@[0] == '!' && "!M"@[1] == 'M');
    reveal_strlit("-M");
    assert("-M"@.len() == 2 && "-M"@[0] == '-' && "-M"@[1] == 'M');
    reveal_strlit("M+1");
    assert("M+1"@.len() == 3 && "M+1"@[0] == 'M' && "M+1"@[1] == '+' && "M+1"@[2] == '1');
    reveal_strlit("M-1");
    assert("M-1"@.len() == 3 && "M-1"@[0] == 'M' && "M-1"@[1] == '-' && "M-1"@[2] == '1');
    reveal_strlit("D+M");
    assert("D+M"@.len() == 3 && "D+M"@[0] == 'D' && "D+M"@[1] == '+' && "D+M"@[2] == 'M');
    reveal_strlit("D-M");
    assert("D-M"@.len() == 3 && "D-M"@[0] == 'D' && "D-M"@[1] == '-' && "D-M"@[2] == 'M');
    reveal_strlit("M-D");
    assert("M-D"@.len() == 3 && "M-D"@[0] == 'M' && "M-D"@[1] == '-' && "M-D"@[2] == 'D');
    reveal_strlit("D&M");
    assert("D&M"@.len() == 3 && "D&M"@[0] == 'D' && "D&M"@[1] == '&' && "D&M"@[2] == 'M');
    reveal_strlit("D|M");
    assert("D|M"@.len() == 3 && "D|M"@[0] == 'D' && "D|M"@[1] == '|' && "D|M"@[2] == 'M');
}

/// Where the first `c` of a text stands that holds it at `at` and not before.
proof fn lemma_index_of_is(s: Seq<char>, c: char, from: int, at: int)
    requires
        0 <= from <= at <= s.len(),
        forall|k: int| from <= k < at ==> #[trigger] s[k] != c,
        at < s.len() ==> s[at] == c,
    ensures
        index_of(s, c, from) == at,
    decreases at - from,
{
    if from < at {
        lemma_index_of_is(s, c, from + 1, at);
    }
}

/// Where the field ends that starts at `from` and holds no separator up to `end`.
proof fn lemma_field_end_is(s: Seq<char>, from: int, end: int)
    requires
        0 <= from <= end <= s.len(),
        forall|k: int| from <= k < end ==> !is_separator(#[trigger] s[k]),
        end < s.len() ==> is_separator(s[end]),
    ensures
        field_end(s, from) == end,
    decreases end - from,
{
    if from < end {
        lemma_field_end_is(s, from + 1, end);
    }
}

/// The instruction that a computation is read as.
pub open spec fn read_compute(d: Dest, c: Comp, j: Jump) -> InstructionView {
    InstructionView {
        line_type: Some(LineType::CInstruction),
        dest: if dest_is_empty(d) {
            None
        } else {
            Some(dest_text(d))
        },
        comp: Some(comp_text(c)),
        jump: if j == Jump::Never {
            None
        } else {
            Some(jump_text(j))
        },
        value: None,
    }
}

/// The assembler reads a computation as it was written and gives it the
/// bits of its parts.
///
/// The text of a computation that stores its value or jumps is an
/// instruction. The assembler takes it apart into the mnemonics that it was
/// made of, and the code of the instruction is three ones and the bits of
/// destination, computation and jump. The table of symbols stays as it is.
pub proof fn lemma_compute_is_assembled(d: Dest, c: Comp, j: Jump, table: SymbolTableView)
    requires
        !dest_is_empty(d) || j != Jump::Never,
    ensures
        parse(render(Line::Compute(d, c, j)), table) == (
            Ok::<InstructionView, AssembleErrorKind>(
                read_compute(d, c, j),
            ),
            table,
        ),
        translatable(read_compute(d, c, j)),
        machine_code(read_compute(d, c, j)) == "111"@ + dest_bits(d) + comp_bits(c) + jump_bits(j),
{
    lemma_dest_texts(d);
    lemma_comp_texts(c);
    lemma_jump_texts(j);
    reveal_strlit("=");
    reveal_strlit(";");
    assert("="@ =~= seq!['=']);
    assert(";"@ =~= seq![';']);
    let dt = dest_text(d);
    let ct = comp_text(c);
    let jt = jump_text(j);
    let text = render(Line::Compute(d, c, j));
    let ld = dt.len() as int;
    let lc = ct.len() as int;
    let lj = jt.len() as int;
    let assigns = !dest_is_empty(d);
    let jumps = j != Jump::Never;
    let start = if assigns {
        ld + 1
    } else {
        0
    };
    assert(text.len() == start + lc + if jumps {
        1 + lj
    } else {
        0
    });
    assert forall|k: int| 0 <= k < text.len() implies {
        &&& (assigns && k < ld ==> text[k] == dt[k])
        &&& (assigns && k == ld ==> text[k] == '=')
        &&& (start <= k < start + lc ==> text[k] == ct[k - start])
        &&& (jumps && k == start + lc ==> text[k] == ';')
        &&& (jumps && k > start + lc ==> text[k] == jt[k - start - lc - 1])
    } by {}
    assert forall|k: int| 0 <= k < text.len() implies !is_space(#[trigger] text[k]) && text[k]
        != '/' && text[k] != '@' && text[k] != '(' by {
        if assigns && k < ld {
            assert(is_plain(dt[k]));
        } else if start <= k < start + lc {
            assert(is_plain(ct[k - start]));
        } else if jumps && k > start + lc {
            assert(is_plain(jt[k - start - lc - 1]));
        }
    }
    // The text is an instruction line, and its own instruction text.
    lemma_no_comment(text, 0);
    assert(strip_comment(text) =~= text);
    assert(leading_spaces(text) == 0);
    assert(text.skip(0) =~= text);
    assert(trailing_spaces(text) == 0);
    assert(trimmed(text) =~= text);
    assert(instruction_text(text) == text);
    assert(instruction_line(text));
    lemma_index_of_is(text, '@', 0, text.len() as int);
    assert(!has_char(text, '@'));
    // Where the separators stand.
    if assigns {
        assert forall|k: int| 0 <= k < ld implies #[trigger] text[k] != '=' && !is_separator(
            text[k],
        ) by {
            assert(is_plain(dt[k]));
        }
        lemma_index_of_is(text, '=', 0, ld);
        lemma_field_end_is(text, 0, ld);
        assert(text.subrange(0, ld) =~= dt);
    } else {
        assert forall|k: int| 0 <= k < text.len() implies #[trigger] text[k] != '=' by {
            if k < lc {
                assert(is_plain(ct[k]));
            } else if k > lc {
                assert(is_plain(jt[k - lc - 1]));
            }
        }
        lemma_index_of_is(text, '=', 0, text.len() as int);
    }
    assert forall|k: int| start <= k < start + lc implies #[trigger] text[k] != ';'
        && !is_separator(text[k]) by {
        assert(is_plain(ct[k - start]));
    }
    lemma_field_end_is(text, start, start + lc);
    assert(text.subrange(start, start + lc) =~= ct);
    if jumps {
        assert forall|k: int| 0 <= k < start + lc implies #[trigger] text[k] != ';' by {
            if k < ld {
                assert(is_plain(dt[k]));
            } else if k >= start {
                assert(is_plain(ct[k - start]));
            }
        }
        lemma_index_of_is(text, ';', 0, start + lc);
        assert forall|k: int| start + lc + 1 <= k < text.len() implies !is_separator(
            #[trigger] text[k],
        ) by {
            assert(is_plain(jt[k - start - lc - 1]));
        }
        lemma_field_end_is(text, start + lc + 1, text.len() as int);
        assert(text.subrange(start + lc + 1, text.len() as int) =~= jt);
    } else {
        assert forall|k: int| 0 <= k < text.len() implies #[trigger] text[k] != ';' by {
            if k < ld {
                assert(is_plain(dt[k]));
            } else if k >= start {
                assert(is_plain(ct[k - start]));
            }
        }
        lemma_index_of_is(text, ';', 0, text.len() as int);
    }
    assert(has_char(text, '=') == assigns);
    assert(has_char(text, ';') == jumps);
    assert(parse_c(text) == Ok::<InstructionView, AssembleErrorKind>(
        read_compute(d, c, j),
    ));
}

/// The assembler reads a constant as it was written: as the
/// A-instruction with that address. Its code is a zero and the address in
/// binary digits.
pub proof fn lemma_constant_is_assembled(n: u32, table: SymbolTableView)
    ensures
        parse(render(Line::Constant(n as nat)), table) == (
            Ok::<InstructionView, AssembleErrorKind>(a_instruction(n)),
            table,
        ),
        translatable(a_instruction(n)),
        machine_code(a_instruction(n)) == a_code(n),
{
    reveal_strlit("@");
    assert("@"@ =~= seq!['@']);
    let digits = decimal(n as nat);
    lemma_decimal_round_trip(n as nat);
    let text = render(Line::Constant(n as nat));
    assert(text.len() == digits.len() + 1);
    assert(text[0] == '@');
    assert forall|k: int| 1 <= k < text.len() implies is_digit(#[trigger] text[k]) by {
        assert(text[k] == digits[k - 1]);
        assert(is_digit(digits[k - 1]));
    }
    assert forall|k: int| 0 <= k < text.len() implies #[trigger] text[k] != '/' by {
        if k >= 1 {
            assert(is_digit(text[k]));
        }
    }
    lemma_no_comment(text, 0);
    assert(strip_comment(text) =~= text);
    assert(leading_spaces(text) == 0);
    assert(text.skip(0) =~= text);
    assert(is_digit(text.last()));
    assert(trailing_spaces(text) == 0);
    assert(trimmed(text) =~= text);
    assert(instruction_line(text));
    lemma_index_of_is(text, '@', 0, 0);
    assert(has_char(text, '@'));
    assert(text.skip(1) =~= digits);
    assert(is_digit(digits[0]));
    assert(is_digit(digits.last()));
    assert(leading_spaces(digits) == 0);
    assert(digits.skip(0) =~= digits);
    assert(trailing_spaces(digits) == 0);
    assert(trimmed(digits) =~= digits);
    assert(unsigned_digits(digits) == digits);
    assert(is_u32_literal(digits));
}

/// A label that the code writer writes is a label to the assembler, with
/// the name that was written, and no instruction.
pub proof fn lemma_label_is_read(name: Seq<char>)
    ensures
        label_line(render(Line::Label(name))),
        !instruction_line(render(Line::Label(name))),
        label_name(render(Line::Label(name))) == name,
{
    reveal_strlit("(");
    reveal_strlit(")");
    assert("("@ =~= seq!['(']);
    assert(")"@ =~= seq![')']);
    let text = render(Line::Label(name));
    assert(text.len() == name.len() + 2);
    assert(text[0] == '(');
    assert(text.subrange(1, text.len() - 1) =~= name);
    assert(leading_spaces(text) == 0);
    assert(text.skip(0) =~= text);
    assert(text.last() == ')');
    assert(trailing_spaces(text) == 0);
    assert(trimmed(text) =~= text);
}

/// The assembler reads a symbol as it was written: the name that follows
/// the `@` is looked up in the table, and becomes a new variable where the
/// table does not know it. This holds of every name of plain characters
/// that is no number.
pub proof fn lemma_symbol_is_resolved(name: Seq<char>, table: SymbolTableView)
    requires
        name.len() > 0,
        is_plain_text(name),
        !is_u32_literal(name),
    ensures
        parse(render(Line::Symbol(name)), table) == parse_a(render(Line::Symbol(name)), table),
        instruction_line(render(Line::Symbol(name))),
        instruction_text(render(Line::Symbol(name))) == render(Line::Symbol(name)),
        has_char(render(Line::Symbol(name)), '@'),
        trimmed(render(Line::Symbol(name)).skip(1)) == name,
        table.symbols.contains_key(name) && is_u32_literal(table.symbols[name]) ==> parse(
            render(Line::Symbol(name)),
            table,
        ) == (
            Ok::<InstructionView, AssembleErrorKind>(
                a_instruction(u32_literal_value(table.symbols[name]) as u32),
            ),
            table,
        ),
        !table.symbols.contains_key(name) && table.variable_count + 16 <= u32::MAX ==> parse(
            render(Line::Symbol(name)),
            table,
        ) == (
            Ok::<InstructionView, AssembleErrorKind>(
                a_instruction((table.variable_count + 16) as u32),
            ),
            SymbolTableView {
                symbols: table.symbols.insert(name, decimal(table.variable_count + 16)),
                variable_count: table.variable_count + 1,
            },
        ),
{
    reveal_strlit("@");
    assert("@"@ =~= seq!['@']);
    let text = render(Line::Symbol(name));
    assert(text.len() == name.len() + 1);
    assert(text[0] == '@');
    assert forall|k: int| 1 <= k < text.len() implies is_plain(#[trigger] text[k]) by {
        assert(text[k] == name[k - 1]);
        assert(is_plain(name[k - 1]));
    }
    lemma_no_comment(text, 0);
    assert(strip_comment(text) =~= text);
    assert(leading_spaces(text) == 0);
    assert(text.skip(0) =~= text);
    assert(is_plain(text.last()));
    assert(trailing_spaces(text) == 0);
    assert(trimmed(text) =~= text);
    assert(instruction_line(text));
    lemma_index_of_is(text, '@', 0, 0);
    assert(has_char(text, '@'));
    assert(text.skip(1) =~= name);
    assert(is_plain(name[0]));
    assert(is_plain(name.last()));
    assert(leading_spaces(name) == 0);
    assert(name.skip(0) =~= name);
    assert(trailing_spaces(name) == 0);
    assert(trimmed(name) =~= name);
}

} // verus!
