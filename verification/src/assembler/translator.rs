//! Turns instructions into binary machine code.

use crate::assembler::parser::{text_of, Instruction, InstructionView, LineType};
use crate::text::{chars_of, spells};
use vstd::prelude::*;
use vstd::string::*;

verus! {

/// The three bits of a destination; none for a text that names no destination.
pub open spec fn dest_code(dest: Option<Seq<char>>) -> Option<Seq<char>> {
    match dest {
        None => Some("000"@),
        Some(t) => if t == "M"@ {
            Some("001"@)
        } else if t == "D"@ {
            Some("010"@)
        } else if t == "MD"@ {
            Some("011"@)
        } else if t == "A"@ {
            Some("100"@)
        } else if t == "AM"@ {
            Some("101"@)
        } else if t == "AD"@ {
            Some("110"@)
        } else if t == "AMD"@ {
            Some("111"@)
        } else {
            None
        },
    }
}

/// The seven bits of a computation; none for a text that names no computation.
pub open spec fn comp_code(comp: Option<Seq<char>>) -> Option<Seq<char>> {
    match comp {
        None => None,
        Some(t) => if t == "0"@ {
            Some("0101010"@)
        } else if t == "1"@ {
            Some("0111111"@)
        } else if t == "-1"@ {
            Some("0111010"@)
        } else if t == "D"@ {
            Some("0001100"@)
        } else if t == "A"@ {
            Some("0110000"@)
        } else if t == "!D"@ {
            Some("0001101"@)
        } else if t == "!A"@ {
            Some("0110001"@)
        } else if t == "-D"@ {
            Some("0001111"@)
        } else if t == "-A"@ {
            Some("0110011"@)
        } else if t == "D+1"@ {
            Some("0011111"@)
        } else if t == "A+1"@ {
            Some("0110111"@)
        } else if t == "D-1"@ {
            Some("0001110"@)
        } else if t == "A-1"@ {
            Some("0110010"@)
        } else if t == "D+A"@ {
            Some("0000010"@)
        } else if t == "D-A"@ {
            Some("0010011"@)
        } else if t == "A-D"@ {
            Some("0000111"@)
        } else if t == "D&A"@ {
            Some("0000000"@)
        } else if t == "D|A"@ {
            Some("0010101"@)
        } else if t == "M"@ {
            Some("1110000"@)
        } else if t == "!M"@ {
            Some("1110001"@)
        } else if t == "-M"@ {
            Some("1110011"@)
        } else if t == "M+1"@ {
            Some("1110111"@)
        } else if t == "M-1"@ {
            Some("1110010"@)
        } else if t == "D+M"@ {
            Some("1000010"@)
        } else if t == "D-M"@ {
            Some("1010011"@)
        } else if t == "M-D"@ {
            Some("1000111"@)
        } else if t == "D&M"@ {
            Some("1000000"@)
        } else if t == "D|M"@ {
            Some("1010101"@)
        } else {
            None
        },
    }
}

/// The three bits of a jump; none for a text that names no jump.
pub open spec fn jump_code(jump: Option<Seq<char>>) -> Option<Seq<char>> {
    match jump {
        None => Some("000"@),
        Some(t) => if t == "JGT"@ {
            Some("001"@)
        } else if t == "JEQ"@ {
            Some("010"@)
        } else if t == "JGE"@ {
            Some("011"@)
        } else if t == "JLT"@ {
            Some("100"@)
        } else if t == "JNE"@ {
            Some("101"@)
        } else if t == "JLE"@ {
            Some("110"@)
        } else if t == "JMP"@ {
            Some("111"@)
        } else {
            None
        },
    }
}

/// The binary digit of a number below two.
pub open spec fn bit_char(b: nat) -> char {
    if b == 0 {
        '0'
    } else {
        '1'
    }
}

/// The shortest binary numeral of `n`.
pub open spec fn binary(n: nat) -> Seq<char>
    decreases n,
{
    if n < 2 {
        seq![bit_char(n)]
    } else {
        binary(n / 2).push(bit_char(n % 2))
    }
}

/// `k` zeros.
pub open spec fn zeros(k: nat) -> Seq<char> {
    Seq::new(k, |i: int| '0')
}

/// The binary numeral of `n`, with zeros before it where it has fewer than
/// `width` digits.
pub open spec fn binary_padded(n: nat, width: nat) -> Seq<char> {
    if binary(n).len() >= width {
        binary(n)
    } else {
        zeros((width - binary(n).len()) as nat) + binary(n)
    }
}

/// The code of an A-instruction: a zero and the address in at least 15
/// binary digits.
pub open spec fn a_code(value: u32) -> Seq<char> {
    "0"@ + binary_padded(value as nat, 15)
}

/// Whether an instruction has a code: an A-instruction with an address, or a
/// C-instruction whose parts are mnemonics of the machine.
pub open spec fn translatable(ins: InstructionView) -> bool {
    match ins.line_type {
        Some(LineType::AInstruction) => ins.value is Some,
        Some(LineType::CInstruction) => dest_code(ins.dest) is Some && comp_code(ins.comp) is Some
            && jump_code(ins.jump) is Some,
        None => false,
    }
}

/// The code of an instruction that has one. That of a C-instruction is three
/// ones and the bits of destination, computation and jump, in that order.
pub open spec fn machine_code(ins: InstructionView) -> Seq<char> {
    match ins.line_type {
        Some(LineType::AInstruction) => a_code(ins.value->0),
        _ => "111"@ + dest_code(ins.dest)->0 + comp_code(ins.comp)->0 + jump_code(ins.jump)->0,
    }
}

fn dest_bits(dest: &Option<String>) -> (r: Option<&'static str>)
    ensures
        match dest_code(text_of(*dest)) {
            Some(bits) => r matches Some(s) && s@ == bits,
            None => r is None,
        },
{
    match dest {
        None => Some("000"),
        Some(s) => {
            let t = chars_of(s.as_str());
            if spells(&t, "M") {
                Some("001")
            } else if spells(&t, "D") {
                Some("010")
            } else if spells(&t, "MD") {
                Some("011")
            } else if spells(&t, "A") {
                Some("100")
            } else if spells(&t, "AM") {
                Some("101")
            } else if spells(&t, "AD") {
                Some("110")
            } else if spells(&t, "AMD") {
                Some("111")
            } else {
                None
            }
        },
    }
}

fn comp_bits(comp: &Option<String>) -> (r: Option<&'static str>)
    ensures
        match comp_code(text_of(*comp)) {
            Some(bits) => r matches Some(s) && s@ == bits,
            None => r is None,
        },
{
    match comp {
        None => None,
        Some(s) => {
            let t = chars_of(s.as_str());
            if spells(&t, "0") {
                Some("0101010")
            } else if spells(&t, "1") {
                Some("0111111")
            } else if spells(&t, "-1") {
                Some("0111010")
            } else if spells(&t, "D") {
                Some("0001100")
            } else if spells(&t, "A") {
                Some("0110000")
            } else if spells(&t, "!D") {
                Some("0001101")
            } else if spells(&t, "!A") {
                Some("0110001")
            } else if spells(&t, "-D") {
                Some("0001111")
            } else if spells(&t, "-A") {
                Some("0110011")
            } else if spells(&t, "D+1") {
                Some("0011111")
            } else if spells(&t, "A+1") {
                Some("0110111")
            } else if spells(&t, "D-1") {
                Some("0001110")
            } else if spells(&t, "A-1") {
                Some("0110010")
            } else if spells(&t, "D+A") {
                Some("0000010")
            } else if spells(&t, "D-A") {
                Some("0010011")
            } else if spells(&t, "A-D") {
                Some("0000111")
            } else if spells(&t, "D&A") {
                Some("0000000")
            } else if spells(&t, "D|A") {
                Some("0010101")
            } else if spells(&t, "M") {
                Some("1110000")
            } else if spells(&t, "!M") {
                Some("1110001")
            } else if spells(&t, "-M") {
                Some("1110011")
            } else if spells(&t, "M+1") {
                Some("1110111")
            } else if spells(&t, "M-1") {
                Some("1110010")
            } else if spells(&t, "D+M") {
                Some("1000010")
            } else if spells(&t, "D-M") {
                Some("1010011")
            } else if spells(&t, "M-D") {
                Some("1000111")
            } else if spells(&t, "D&M") {
                Some("1000000")
            } else if spells(&t, "D|M") {
                Some("1010101")
            } else {
                None
            }
        },
    }
}

fn jump_bits(jump: &Option<String>) -> (r: Option<&'static str>)
    ensures
        match jump_code(text_of(*jump)) {
            Some(bits) => r matches Some(s) && s@ == bits,
            None => r is None,
        },
{
    match jump {
        None => Some("000"),
        Some(s) => {
            let t = chars_of(s.as_str());
            if spells(&t, "JGT") {
                Some("001")
            } else if spells(&t, "JEQ") {
                Some("010")
            } else if spells(&t, "JGE") {
                Some("011")
            } else if spells(&t, "JLT") {
                Some("100")
            } else if spells(&t, "JNE") {
                Some("101")
            } else if spells(&t, "JLE") {
                Some("110")
            } else if spells(&t, "JMP") {
                Some("111")
            } else {
                None
            }
        },
    }
}

/// Appends the binary numeral of `n` to `out`.
fn push_binary(out: &mut String, n: u32)
    ensures
        final(out)@ == old(out)@ + binary(n as nat),
    decreases n,
{
    if n >= 2 {
        push_binary(out, n / 2);
    }
    proof {
        reveal_strlit("0");
        reveal_strlit("1");
    }
    if n % 2 == 0 {
        out.append("0");
        assert("0"@ =~= seq![bit_char((n % 2) as nat)]);
    } else {
        out.append("1");
        assert("1"@ =~= seq![bit_char((n % 2) as nat)]);
    }
    assert(final(out)@ =~= old(out)@ + binary(n as nat));
}

/// The number of digits of the binary numeral of `n`.
fn binary_len(n: u32) -> (len: usize)
    ensures
        len == binary(n as nat).len(),
        1 <= len <= 32,
{
    let mut len: usize = 1;
    let mut rest: u32 = n;
    proof {
        lemma_binary_len(n as nat);
    }
    while rest >= 2
        invariant
            binary(n as nat).len() == binary(rest as nat).len() + len - 1,
            1 <= len,
            len + binary(rest as nat).len() <= 33,
        decreases rest,
    {
        proof {
            lemma_binary_len(rest as nat);
            lemma_binary_len((rest / 2) as nat);
        }
        rest = rest / 2;
        len = len + 1;
    }
    proof {
        lemma_binary_len(n as nat);
    }
    len
}

/// A number below a power of two has no more digits than the power's exponent.
proof fn lemma_binary_len(n: nat)
    ensures
        binary(n).len() >= 1,
        n < 0x1_0000_0000 ==> binary(n).len() <= 32,
{
    lemma_binary_len_bound(n, 32);
    assert(pow2(32) == 0x1_0000_0000) by {
        reveal_with_fuel(pow2, 33);
    }
}

/// Two to the power of `k`.
spec fn pow2(k: nat) -> nat
    decreases k,
{
    if k == 0 {
        1
    } else {
        2 * pow2((k - 1) as nat)
    }
}

proof fn lemma_binary_len_bound(n: nat, k: nat)
    requires
        k >= 1,
    ensures
        binary(n).len() >= 1,
        n < pow2(k) ==> binary(n).len() <= k,
    decreases n,
{
    if n >= 2 {
        if k >= 2 {
            lemma_binary_len_bound(n / 2, (k - 1) as nat);
        } else {
            lemma_binary_len_bound(n / 2, 1);
            assert(pow2(1) == 2) by {
                reveal_with_fuel(pow2, 2);
            }
        }
    }
}

fn translate_a_instruction(ins: Instruction) -> (code: String)
    requires
        ins.value is Some,
    ensures
        code@ == a_code(ins.value->0),
{
    let uint = match ins.value {
        Some(uint) => uint,
        None => 0,
    };
    let mut code = String::from_str("0");
    let len = binary_len(uint);
    let mut padding: usize = 0;
    while len + padding < 15
        invariant
            len == binary(uint as nat).len(),
            len + padding <= 15 || padding == 0,
            code@ == "0"@ + zeros(padding as nat),
        decreases 15 - padding,
    {
        proof {
            reveal_strlit("0");
        }
        code.append("0");
        padding = padding + 1;
        assert(code@ =~= "0"@ + zeros(padding as nat));
    }
    push_binary(&mut code, uint);
    assert(code@ =~= a_code(uint));
    code
}

fn translate_c_instruction(ins: Instruction) -> (code: String)
    requires
        dest_code(ins@.dest) is Some,
        comp_code(ins@.comp) is Some,
        jump_code(ins@.jump) is Some,
    ensures
        code@ == "111"@ + dest_code(ins@.dest)->0 + comp_code(ins@.comp)->0 + jump_code(
            ins@.jump,
        )->0,
{
    let mut code = String::from_str("111");
    match dest_bits(&ins.dest) {
        Some(bits) => {
            code.append(bits);
        },
        None => {},
    }
    match comp_bits(&ins.comp) {
        Some(bits) => {
            code.append(bits);
        },
        None => {},
    }
    match jump_bits(&ins.jump) {
        Some(bits) => {
            code.append(bits);
        },
        None => {},
    }
    code
}

/// Whether an instruction has a code.
pub fn is_translatable(ins: &Instruction) -> (b: bool)
    ensures
        b == translatable(ins@),
{
    match ins.line_type {
        Some(LineType::AInstruction) => ins.value.is_some(),
        Some(LineType::CInstruction) => dest_bits(&ins.dest).is_some() && comp_bits(
            &ins.comp,
        ).is_some() && jump_bits(&ins.jump).is_some(),
        None => false,
    }
}

/// The code of an instruction.
pub fn translate_instruction(ins: Instruction) -> (code: String)
    requires
        translatable(ins@),
    ensures
        code@ == machine_code(ins@),
{
    match ins.line_type {
        Some(LineType::AInstruction) => translate_a_instruction(ins),
        _ => translate_c_instruction(ins),
    }
}

} // verus!
