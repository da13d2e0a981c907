//! Generated label names: the operand kind that first targeted an offset,
//! an underscore, and the offset in lowercase hexadecimal.
use vstd::prelude::*;
use vstd::string::StringExecFns;

verus! {

/// The control-flow operand kinds that can define a label, in the order
/// that decides which kind names a shared target.
#[derive(Debug, PartialEq, Eq, Clone, Copy)]
pub enum LabelKind {
    Condition,
    Call,
    Jump,
    TableCall,
    TableJump,
}

/// The lowercase hexadecimal digit for a value below sixteen.
pub open spec fn hex_digit(d: int) -> char {
    if d == 0 { '0' }
    else if d == 1 { '1' }
    else if d == 2 { '2' }
    else if d == 3 { '3' }
    else if d == 4 { '4' }
    else if d == 5 { '5' }
    else if d == 6 { '6' }
    else if d == 7 { '7' }
    else if d == 8 { '8' }
    else if d == 9 { '9' }
    else if d == 10 { 'a' }
    else if d == 11 { 'b' }
    else if d == 12 { 'c' }
    else if d == 13 { 'd' }
    else if d == 14 { 'e' }
    else { 'f' }
}

/// The lowercase hexadecimal spelling of a number, most significant digit
/// first, without leading zeros.
pub open spec fn hex_seq(n: int) -> Seq<char>
    decreases n,
{
    if n < 16 {
        seq![hex_digit(n)]
    } else {
        hex_seq(n / 16).push(hex_digit(n % 16))
    }
}

/// One hexadecimal digit as a string slice.
fn hex_digit_str(d: u32) -> (r: &'static str)
    requires
        d < 16,
    ensures
        r@ == seq![hex_digit(d as int)],
{
    let r: &'static str = match d {
        0 => "0",
        1 => "1",
        2 => "2",
        3 => "3",
        4 => "4",
        5 => "5",
        6 => "6",
        7 => "7",
        8 => "8",
        9 => "9",
        10 => "a",
        11 => "b",
        12 => "c",
        13 => "d",
        14 => "e",
        _ => "f",
    };
    proof {
        reveal_strlit("0");
        reveal_strlit("1");
        reveal_strlit("2");
        reveal_strlit("3");
        reveal_strlit("4");
        reveal_strlit("5");
        reveal_strlit("6");
        reveal_strlit("7");
        reveal_strlit("8");
        reveal_strlit("9");
        reveal_strlit("a");
        reveal_strlit("b");
        reveal_strlit("c");
        reveal_strlit("d");
        reveal_strlit("e");
        reveal_strlit("f");
        assert(r@ =~= seq![hex_digit(d as int)]);
    }
    r
}

/// The lowercase hexadecimal spelling of `x`.
pub fn hex_string(x: u32) -> (r: String)
    ensures
        r@ == hex_seq(x as int),
    decreases x,
{
    if x < 16 {
        hex_digit_str(x).to_owned()
    } else {
        let mut s = hex_string(x / 16);
        s.append(hex_digit_str(x % 16));
        s
    }
}

/// The spelled-out kind prefix of a generated label name.
pub open spec fn kind_prefix(k: LabelKind) -> Seq<char> {
    match k {
        LabelKind::Condition => seq!['c', 'o', 'n', 'd', 'i', 't', 'i', 'o', 'n'],
        LabelKind::Call => seq!['c', 'a', 'l', 'l'],
        LabelKind::Jump => seq!['j', 'u', 'm', 'p'],
        LabelKind::TableCall => seq!['t', 'a', 'b', 'l', 'e', 'c', 'a', 'l', 'l'],
        LabelKind::TableJump => seq!['t', 'a', 'b', 'l', 'e', 'j', 'u', 'm', 'p'],
    }
}

/// The full generated name for a target: kind, `_0x`, offset in hex.
pub open spec fn label_name(k: LabelKind, b: u32) -> Seq<char> {
    kind_prefix(k) + seq!['_', '0', 'x'] + hex_seq(b as int)
}

/// The name of the block at offset zero.
pub open spec fn start_name() -> Seq<char> {
    seq!['s', 't', 'a', 'r', 't']
}

/// Build the generated name for a target.
pub fn make_label_name(k: LabelKind, b: u32) -> (r: String)
    ensures
        r@ == label_name(k, b),
{
    let mut s: String = match k {
        LabelKind::Condition => "condition".to_owned(),
        LabelKind::Call => "call".to_owned(),
        LabelKind::Jump => "jump".to_owned(),
        LabelKind::TableCall => "tablecall".to_owned(),
        LabelKind::TableJump => "tablejump".to_owned(),
    };
    proof {
        reveal_strlit("condition");
        reveal_strlit("call");
        reveal_strlit("jump");
        reveal_strlit("tablecall");
        reveal_strlit("tablejump");
        assert(s@ =~= kind_prefix(k));
    }
    s.append("_0x");
    proof {
        reveal_strlit("_0x");
        assert(s@ =~= kind_prefix(k) + seq!['_', '0', 'x']);
    }
    let h = hex_string(b);
    s.append(h.as_str());
    proof {
        assert(s@ =~= label_name(k, b));
    }
    s
}

/// Build the name of the start block.
pub fn make_start_name() -> (r: String)
    ensures
        r@ == start_name(),
{
    let s = "start".to_owned();
    proof {
        reveal_strlit("start");
        assert(s@ =~= start_name());
    }
    s
}

} // verus!
