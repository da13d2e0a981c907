//! The label pass: the bidirectional rewrite between byte-offset and
//! symbolic control-flow targets. Disassembly partitions the opcode stream
//! into named blocks at every jump target and rewrites offsets to the
//! blocks' names; assembly recomputes each block's offset by summing opcode
//! byte sizes and rewrites the names back. Because both directions measure
//! offsets against the same block list, compiling a resolved scene restores
//! every original operand.
use vstd::prelude::*;
use crate::codec::{CodecError, Writeable, seq_wire, seq_compiled, lemma_seq_wire_push};
use crate::val::Pos;
use crate::opcode::Opcode;
use crate::header::Header;
use crate::scene::AVG32Scene;
use crate::names::{LabelKind, make_label_name, make_start_name, label_name, start_name};

verus! {

/// A control-flow target paired with the operand kind that referenced it.
#[derive(Debug, PartialEq, Eq, Clone)]
pub struct LabelPos {
    pub kind: LabelKind,
    pub pos: Pos,
}

impl LabelPos {
    /// Pair a target position with its operand kind.
    pub fn new(kind: LabelKind, pos: Pos) -> (r: LabelPos)
        ensures
            r.kind == kind && r.pos == pos,
    {
        LabelPos { kind, pos }
    }
}

/// One named block of a resolved scene.
#[derive(Debug, PartialEq, Eq, Clone)]
pub struct Label {
    pub name: String,
    pub opcodes: Vec<Opcode>,
}

/// A scene whose control-flow targets are symbolic: the header and the
/// blocks in ascending offset order.
#[derive(Debug, PartialEq, Eq, Clone)]
pub struct LabelResolvedScene {
    pub header: Header,
    pub labels: Vec<Label>,
}

/// The control-flow targets of one opcode, with their operand kinds.
pub open spec fn op_targets(op: Opcode) -> Seq<(LabelKind, Pos)> {
    match op {
        Opcode::Condition(_, p) => seq![(LabelKind::Condition, p)],
        Opcode::Call(p) => seq![(LabelKind::Call, p)],
        Opcode::Jump(p) => seq![(LabelKind::Jump, p)],
        Opcode::TableCall(_, ps) => Seq::new(ps@.len(), |i: int| (LabelKind::TableCall, ps@[i])),
        Opcode::TableJump(_, ps) => Seq::new(ps@.len(), |i: int| (LabelKind::TableJump, ps@[i])),
        _ => Seq::empty(),
    }
}

/// The numeric rank the resolve pass gives each operand kind when several
/// kinds reference one offset; the least-ranked kind names the offset.
pub open spec fn kind_rank(k: LabelKind) -> int {
    match k {
        LabelKind::Condition => 0,
        LabelKind::Call => 1,
        LabelKind::Jump => 2,
        LabelKind::TableCall => 3,
        LabelKind::TableJump => 4,
    }
}

/// The operand kind of a rank, inverting `kind_rank`.
pub open spec fn rank_kind(r: int) -> LabelKind {
    if r == 0 {
        LabelKind::Condition
    } else if r == 1 {
        LabelKind::Call
    } else if r == 2 {
        LabelKind::Jump
    } else if r == 3 {
        LabelKind::TableCall
    } else {
        LabelKind::TableJump
    }
}

/// Among the first `i` opcodes, together with the first `t` operands of
/// opcode `i`, some operand targets byte offset `b` with a kind of rank `r`.
pub open spec fn has_target_upto(ops: Seq<Opcode>, i: int, t: int, b: u32, r: int) -> bool {
    exists|x: int, y: int| 0 <= x <= i && x < ops.len()
        && 0 <= y < op_targets(ops[x]).len() && (x < i || y < t)
        && (#[trigger] op_targets(ops[x])[y]).1 == Pos::Offset(b)
        && kind_rank(op_targets(ops[x])[y].0) == r
}

/// Some operand of the stream targets byte offset `b` with a kind of rank
/// `r`.
pub open spec fn has_target(ops: Seq<Opcode>, b: u32, r: int) -> bool {
    has_target_upto(ops, ops.len() as int, 0, b, r)
}

/// `name` is the generated label for offset `b` under the least-ranked
/// kind among the operands of `ops` that target `b`.
pub open spec fn named_for_least_kind(ops: Seq<Opcode>, b: u32, name: Seq<char>) -> bool {
    exists|r: int| #[trigger] has_target(ops, b, r)
        && (forall|r2: int| has_target(ops, b, r2) ==> r <= r2)
        && name == label_name(rank_kind(r), b)
}

/// A collect-phase row holds a nonzero offset together with the least
/// operand rank seen for it among the operands processed so far.
pub open spec fn row_min_upto(ops: Seq<Opcode>, i: int, t: int, row: (u32, u8)) -> bool {
    &&& row.0 != 0
    &&& has_target_upto(ops, i, t, row.0, row.1 as int)
    &&& forall|r2: int| #[trigger] has_target_upto(ops, i, t, row.0, r2) ==> row.1 as int <= r2
}

/// A finished row: the start sentinel, or an offset row whose rank is
/// least over the whole stream.
pub open spec fn row_min(ops: Seq<Opcode>, row: (u32, u8)) -> bool {
    row == (0u32, 5u8) || row_min_upto(ops, ops.len() as int, 0, row)
}

/// Standing after the last operand of opcode `i` covers the same operand
/// set as standing before the first operand of opcode `i + 1`.
proof fn lemma_upto_next_op(ops: Seq<Opcode>, i: int, b: u32, r: int)
    requires
        0 <= i < ops.len(),
    ensures
        has_target_upto(ops, i, op_targets(ops[i]).len() as int, b, r)
            == has_target_upto(ops, i + 1, 0, b, r),
{
    if has_target_upto(ops, i, op_targets(ops[i]).len() as int, b, r) {
        let (x, y) = choose|x: int, y: int| 0 <= x <= i && x < ops.len()
            && 0 <= y < op_targets(ops[x]).len()
            && (x < i || y < op_targets(ops[i]).len())
            && (#[trigger] op_targets(ops[x])[y]).1 == Pos::Offset(b)
            && kind_rank(op_targets(ops[x])[y].0) == r;
        assert(x < i + 1);
        assert(has_target_upto(ops, i + 1, 0, b, r));
    }
    if has_target_upto(ops, i + 1, 0, b, r) {
        let (x, y) = choose|x: int, y: int| 0 <= x <= i + 1 && x < ops.len()
            && 0 <= y < op_targets(ops[x]).len() && (x < i + 1 || y < 0)
            && (#[trigger] op_targets(ops[x])[y]).1 == Pos::Offset(b)
            && kind_rank(op_targets(ops[x])[y].0) == r;
        assert(x <= i);
        assert(x < i || y < op_targets(ops[i]).len());
        assert(has_target_upto(ops, i, op_targets(ops[i]).len() as int, b, r));
    }
}

/// Advancing one operand grows the operand set by exactly that operand.
proof fn lemma_upto_next_target(ops: Seq<Opcode>, i: int, t: int, b: u32, r: int)
    requires
        0 <= i < ops.len(),
        0 <= t < op_targets(ops[i]).len(),
    ensures
        has_target_upto(ops, i, t + 1, b, r) == (has_target_upto(ops, i, t, b, r)
            || (op_targets(ops[i])[t].1 == Pos::Offset(b)
                && kind_rank(op_targets(ops[i])[t].0) == r)),
{
    if has_target_upto(ops, i, t + 1, b, r) {
        let (x, y) = choose|x: int, y: int| 0 <= x <= i && x < ops.len()
            && 0 <= y < op_targets(ops[x]).len() && (x < i || y < t + 1)
            && (#[trigger] op_targets(ops[x])[y]).1 == Pos::Offset(b)
            && kind_rank(op_targets(ops[x])[y].0) == r;
        if x == i && y == t {
        } else {
            assert(x < i || y < t);
            assert(has_target_upto(ops, i, t, b, r));
        }
    }
    if has_target_upto(ops, i, t, b, r) {
        let (x, y) = choose|x: int, y: int| 0 <= x <= i && x < ops.len()
            && 0 <= y < op_targets(ops[x]).len() && (x < i || y < t)
            && (#[trigger] op_targets(ops[x])[y]).1 == Pos::Offset(b)
            && kind_rank(op_targets(ops[x])[y].0) == r;
        assert(has_target_upto(ops, i, t + 1, b, r));
    }
    if op_targets(ops[i])[t].1 == Pos::Offset(b) && kind_rank(op_targets(ops[i])[t].0) == r {
        assert(0 <= i <= i && i < ops.len() && 0 <= t < op_targets(ops[i]).len()
            && (i < i || t < t + 1)
            && op_targets(ops[i])[t].1 == Pos::Offset(b)
            && kind_rank(op_targets(ops[i])[t].0) == r);
        assert(has_target_upto(ops, i, t + 1, b, r));
    }
}

/// No operand at all stands before the first operand of the first opcode.
proof fn lemma_upto_empty(ops: Seq<Opcode>, b: u32, r: int)
    ensures
        !has_target_upto(ops, 0, 0, b, r),
{
    if has_target_upto(ops, 0, 0, b, r) {
        let (x, y) = choose|x: int, y: int| 0 <= x <= 0 && x < ops.len()
            && 0 <= y < op_targets(ops[x]).len() && (x < 0 || y < 0)
            && (#[trigger] op_targets(ops[x])[y]).1 == Pos::Offset(b)
            && kind_rank(op_targets(ops[x])[y].0) == r;
        assert(false);
    }
}

/// Copy a position; a symbolic name is duplicated character for character.
fn clone_pos(p: &Pos) -> (r: Pos)
    ensures
        r == *p,
{
    match p {
        Pos::Offset(x) => Pos::Offset(*x),
        Pos::Label(n) => Pos::Label(n.clone()),
    }
}

/// The opcodes that carry control-flow operands.
pub open spec fn is_control_op(op: Opcode) -> bool {
    match op {
        Opcode::Condition(_, _) => true,
        Opcode::Call(_) => true,
        Opcode::Jump(_) => true,
        Opcode::TableCall(_, _) => true,
        Opcode::TableJump(_, _) => true,
        _ => false,
    }
}

/// Collect the control-flow targets of one opcode: `Some` exactly for the
/// control-flow variants, `None` for every other.
pub fn extract_label(op: &Opcode) -> (r: Option<Vec<LabelPos>>)
    ensures
        r is Some <==> is_control_op(*op),
        r matches Some(v) ==> v@.len() == op_targets(*op).len()
            && forall|i: int| 0 <= i < v@.len() ==> (#[trigger] v@[i]).kind == op_targets(*op)[i].0
                && v@[i].pos == op_targets(*op)[i].1,
        r is None ==> op_targets(*op) == Seq::<(LabelKind, Pos)>::empty(),
{
    match op {
        Opcode::Condition(_, p) => {
            let v = vec![LabelPos { kind: LabelKind::Condition, pos: clone_pos(p) }];
            assert(v@ =~= seq![LabelPos { kind: LabelKind::Condition, pos: *p }]);
            Some(v)
        },
        Opcode::Call(p) => {
            let v = vec![LabelPos { kind: LabelKind::Call, pos: clone_pos(p) }];
            assert(v@ =~= seq![LabelPos { kind: LabelKind::Call, pos: *p }]);
            Some(v)
        },
        Opcode::Jump(p) => {
            let v = vec![LabelPos { kind: LabelKind::Jump, pos: clone_pos(p) }];
            assert(v@ =~= seq![LabelPos { kind: LabelKind::Jump, pos: *p }]);
            Some(v)
        },
        Opcode::TableCall(_, ps) => Some(collect_positions(ps, LabelKind::TableCall)),
        Opcode::TableJump(_, ps) => Some(collect_positions(ps, LabelKind::TableJump)),
        _ => None,
    }
}

/// Pair every position of a table opcode with one operand kind.
fn collect_positions(ps: &Vec<Pos>, kind: LabelKind) -> (r: Vec<LabelPos>)
    ensures
        r@.len() == ps@.len(),
        forall|i: int| 0 <= i < r@.len() ==> (#[trigger] r@[i]).kind == kind
            && r@[i].pos == ps@[i],
{
    let mut r: Vec<LabelPos> = Vec::new();
    let mut i: usize = 0;
    while i < ps.len()
        invariant
            i <= ps@.len(),
            r@.len() == i,
            forall|j: int| 0 <= j < i ==> (#[trigger] r@[j]).kind == kind && r@[j].pos == ps@[j],
        decreases ps@.len() - i,
    {
        r.push(LabelPos { kind, pos: clone_pos(&ps[i]) });
        i = i + 1;
    }
    r
}

/// The control-flow targets of a whole opcode list, in opcode order.
pub open spec fn all_targets(ops: Seq<Opcode>) -> Seq<(LabelKind, Pos)>
    decreases ops.len(),
{
    if ops.len() == 0 {
        Seq::empty()
    } else {
        op_targets(ops[0]) + all_targets(ops.drop_first())
    }
}

pub proof fn lemma_all_targets_push(ops: Seq<Opcode>, op: Opcode)
    ensures
        all_targets(ops.push(op)) == all_targets(ops) + op_targets(op),
    decreases ops.len(),
{
    if ops.len() == 0 {
        assert(ops.push(op).drop_first() =~= Seq::<Opcode>::empty());
        assert(ops.push(op)[0] == op);
        assert(all_targets(ops.push(op))
            == op_targets(op) + all_targets(ops.push(op).drop_first()));
        assert(all_targets(ops.push(op)) =~= all_targets(ops) + op_targets(op));
    } else {
        assert(ops.push(op).drop_first() =~= ops.drop_first().push(op));
        lemma_all_targets_push(ops.drop_first(), op);
        assert(all_targets(ops.push(op)) =~= all_targets(ops) + op_targets(op));
    }
}

/// Collect the control-flow targets of a whole opcode list, in order.
pub fn extract_labels(opcodes: &Vec<Opcode>) -> (r: Vec<LabelPos>)
    ensures
        r@.len() == all_targets(opcodes@).len(),
        forall|k: int| 0 <= k < r@.len() ==> (#[trigger] r@[k]).kind
            == all_targets(opcodes@)[k].0 && r@[k].pos == all_targets(opcodes@)[k].1,
{
    let ghost ops = opcodes@;
    let mut r: Vec<LabelPos> = Vec::new();
    let mut i: usize = 0;
    while i < opcodes.len()
        invariant
            i <= ops.len(),
            opcodes@ == ops,
            r@.len() == all_targets(ops.subrange(0, i as int)).len(),
            forall|k: int| 0 <= k < r@.len() ==> (#[trigger] r@[k]).kind
                == all_targets(ops.subrange(0, i as int))[k].0
                && r@[k].pos == all_targets(ops.subrange(0, i as int))[k].1,
        decreases ops.len() - i,
    {
        proof {
            assert(ops.subrange(0, i + 1) =~= ops.subrange(0, i as int).push(ops[i as int]));
            lemma_all_targets_push(ops.subrange(0, i as int), ops[i as int]);
        }
        match extract_label(&opcodes[i]) {
            Some(mut v) => {
                r.append(&mut v);
            },
            None => {},
        }
        i = i + 1;
    }
    proof {
        assert(ops.subrange(0, ops.len() as int) =~= ops);
    }
    r
}

/// The opcodes of a block list, concatenated in block order.
pub open spec fn concat_ops(ls: Seq<Label>) -> Seq<Opcode>
    decreases ls.len(),
{
    if ls.len() == 0 {
        Seq::empty()
    } else {
        ls[0].opcodes@ + concat_ops(ls.drop_first())
    }
}

pub proof fn lemma_concat_ops_push(ls: Seq<Label>, l: Label)
    ensures
        concat_ops(ls.push(l)) == concat_ops(ls) + l.opcodes@,
    decreases ls.len(),
{
    if ls.len() == 0 {
        assert(ls.push(l).drop_first() =~= Seq::<Label>::empty());
        assert(ls.push(l)[0] == l);
        assert(concat_ops(ls.push(l)) == l.opcodes@ + concat_ops(ls.push(l).drop_first()));
        assert(concat_ops(ls.push(l)) =~= concat_ops(ls) + l.opcodes@);
    } else {
        assert(ls.push(l).drop_first() =~= ls.drop_first().push(l));
        lemma_concat_ops_push(ls.drop_first(), l);
        assert(concat_ops(ls.push(l)) =~= concat_ops(ls) + l.opcodes@);
    }
}

/// A block list's concatenation splits at any block boundary.
pub proof fn lemma_concat_ops_split(ls: Seq<Label>, j: int)
    requires
        0 <= j <= ls.len(),
    ensures
        concat_ops(ls) == concat_ops(ls.subrange(0, j)) + concat_ops(ls.subrange(j, ls.len() as int)),
    decreases j,
{
    if j == 0 {
        assert(ls.subrange(0, 0) =~= Seq::<Label>::empty());
        assert(ls.subrange(0, ls.len() as int) =~= ls);
        assert(concat_ops(ls) =~= concat_ops(ls.subrange(0, 0)) + concat_ops(ls));
    } else {
        lemma_concat_ops_split(ls.drop_first(), j - 1);
        assert(ls.subrange(0, j).drop_first() =~= ls.drop_first().subrange(0, j - 1));
        assert(ls.subrange(j, ls.len() as int) =~= ls.drop_first().subrange(j - 1, ls.len() - 1));
        assert(concat_ops(ls) =~= concat_ops(ls.subrange(0, j))
            + concat_ops(ls.subrange(j, ls.len() as int)));
    }
}

/// The byte image of a concatenation is the concatenation of the images.
pub proof fn lemma_seq_wire_concat(a: Seq<Opcode>, b: Seq<Opcode>)
    ensures
        seq_wire(a + b) == seq_wire(a) + seq_wire(b),
    decreases a.len(),
{
    if a.len() == 0 {
        assert(a + b =~= b);
        assert(seq_wire(a) =~= Seq::<u8>::empty());
        assert(seq_wire(a + b) =~= seq_wire(a) + seq_wire(b));
    } else {
        assert((a + b).drop_first() =~= a.drop_first() + b);
        lemma_seq_wire_concat(a.drop_first(), b);
        assert(seq_wire(a + b) =~= seq_wire(a) + seq_wire(b));
    }
}

/// The stream offset at which block `j` begins: the summed byte size of
/// every opcode in the blocks before it.
pub open spec fn block_start(ls: Seq<Label>, j: int) -> int {
    seq_wire(concat_ops(ls.subrange(0, j))).len() as int
}

/// No two blocks share a name.
pub open spec fn distinct_names(ls: Seq<Label>) -> bool {
    forall|i: int, j: int| 0 <= i < j < ls.len() ==> (#[trigger] ls[i].name)@
        != (#[trigger] ls[j].name)@
}

/// A symbolic name `n` stands for offset `b` exactly when some block is
/// named `n` and begins at stream offset `b`.
pub open spec fn name_stands_for(ls: Seq<Label>, n: Seq<char>, b: u32) -> bool {
    exists|j: int| 0 <= j < ls.len() && (#[trigger] ls[j].name)@ == n
        && block_start(ls, j) == b
}

/// Two opcodes whose control operands stand in relation `rel` (byte side
/// on the left, symbolic side on the right) and that agree on everything
/// else.
pub open spec fn op_rel(rel: spec_fn(Pos, Pos) -> bool, byte_side: Opcode, label_side: Opcode) -> bool {
    match byte_side {
        Opcode::Condition(cs, p) => label_side matches Opcode::Condition(cs2, p2) && cs2 == cs
            && rel(p, p2),
        Opcode::Call(p) => label_side matches Opcode::Call(p2) && rel(p, p2),
        Opcode::Jump(p) => label_side matches Opcode::Jump(p2) && rel(p, p2),
        Opcode::TableCall(v, ps) => label_side matches Opcode::TableCall(v2, ps2) && v2 == v
            && ps2@.len() == ps@.len()
            && forall|k: int| 0 <= k < ps@.len() ==> rel(#[trigger] ps@[k], ps2@[k]),
        Opcode::TableJump(v, ps) => label_side matches Opcode::TableJump(v2, ps2) && v2 == v
            && ps2@.len() == ps@.len()
            && forall|k: int| 0 <= k < ps@.len() ==> rel(#[trigger] ps@[k], ps2@[k]),
        _ => label_side == byte_side,
    }
}

/// A position relation that holds pairwise lifts to the opcode relation.
pub proof fn lemma_op_rel_mono(
    r1: spec_fn(Pos, Pos) -> bool,
    r2: spec_fn(Pos, Pos) -> bool,
    a: Opcode,
    b: Opcode,
)
    requires
        forall|p: Pos, q: Pos| #[trigger] r1(p, q) ==> r2(p, q),
        op_rel(r1, a, b),
    ensures
        op_rel(r2, a, b),
{
}

/// The positions relation of the finished pass: an offset on the byte side
/// and, on the symbolic side, the name of the block that begins there.
pub open spec fn pos_pair_ok(ls: Seq<Label>) -> spec_fn(Pos, Pos) -> bool {
    |p: Pos, q: Pos| p is Offset && q is Label && name_stands_for(ls, q->Label_0@, p->Offset_0)
}

/// The positions relation against the offset-to-name table used while
/// rewriting forward.
pub open spec fn pos_tab_ok(tbl: Seq<(u32, String)>) -> spec_fn(Pos, Pos) -> bool {
    |p: Pos, q: Pos| p is Offset && q is Label
        && exists|j: int| 0 <= j < tbl.len() && (#[trigger] tbl[j]).0 == p->Offset_0
            && tbl[j].1@ == q->Label_0@
}

/// The positions relation against the name-to-offset table used while
/// rewriting back.
pub open spec fn pos_rtab_ok(tbl: Seq<(String, u32)>) -> spec_fn(Pos, Pos) -> bool {
    |p: Pos, q: Pos| p is Offset && q is Label
        && exists|j: int| 0 <= j < tbl.len() && (#[trigger] tbl[j]).0@ == q->Label_0@
            && tbl[j].1 == p->Offset_0
}

/// Every control operand of the opcode is a byte offset, none symbolic.
pub open spec fn op_offsets_only(op: Opcode) -> bool {
    forall|k: int| 0 <= k < op_targets(op).len() ==> (#[trigger] op_targets(op)[k]).1 is Offset
}

/// Every control operand of every opcode is a byte offset: the scenes the
/// offsets-to-names pass does not reject as already resolved.
pub open spec fn scene_offsets_only(ops: Seq<Opcode>) -> bool {
    forall|i: int| 0 <= i < ops.len() ==> op_offsets_only(#[trigger] ops[i])
}

/// Blocks are laid out in ascending offset order: block starts are prefix
/// sums of byte sizes, which never decrease.
pub proof fn lemma_block_order(ls: Seq<Label>, j1: int, j2: int)
    requires
        0 <= j1 <= j2 <= ls.len(),
    ensures
        block_start(ls, j1) <= block_start(ls, j2),
{
    lemma_concat_ops_split(ls.subrange(0, j2), j1);
    assert(ls.subrange(0, j2).subrange(0, j1) =~= ls.subrange(0, j1));
    lemma_seq_wire_concat(concat_ops(ls.subrange(0, j1)),
        concat_ops(ls.subrange(0, j2).subrange(j1, j2)));
}

/// Some block is named for the stream start and begins at offset zero.
pub open spec fn has_start_block(ls: Seq<Label>) -> bool {
    exists|j: int| 0 <= j < ls.len() && (#[trigger] ls[j].name)@ == start_name()
        && block_start(ls, j) == 0
}

/// A position the names-to-offsets rewrite can handle: symbolic, and its
/// name is carried by some block.
pub open spec fn pos_compilable(ls: Seq<Label>, p: Pos) -> bool {
    p is Label && exists|j: int| 0 <= j < ls.len() && (#[trigger] ls[j].name)@ == p->Label_0@
}

/// Every control operand of the opcode is compilable against the blocks.
pub open spec fn op_compilable(ls: Seq<Label>, op: Opcode) -> bool {
    forall|k: int| 0 <= k < op_targets(op).len() ==> pos_compilable(ls,
        (#[trigger] op_targets(op)[k]).1)
}

/// Every control operand of every block's opcode is compilable: exactly
/// the resolved scenes the names-to-offsets pass accepts.
pub open spec fn scene_compilable(ls: Seq<Label>) -> bool {
    forall|i: int| 0 <= i < concat_ops(ls).len() ==> op_compilable(ls,
        #[trigger] concat_ops(ls)[i])
}

/// The offsets-to-names direction: the header is kept, block names are
/// distinct, and the blocks' opcodes are the scene's opcodes in order with
/// every control operand renamed to the block beginning at its offset.
pub open spec fn resolved_from(scene: AVG32Scene, res: LabelResolvedScene) -> bool {
    &&& res.header == scene.header
    &&& distinct_names(res.labels@)
    &&& concat_ops(res.labels@).len() == scene.opcodes@.len()
    &&& forall|i: int| 0 <= i < scene.opcodes@.len() ==> op_rel(pos_pair_ok(res.labels@),
        #[trigger] scene.opcodes@[i], concat_ops(res.labels@)[i])
}

/// The names-to-offsets direction: the header is kept and the scene's
/// opcodes are the blocks' opcodes in order with every control operand
/// rewritten to the offset at which its named block begins.
pub open spec fn compiled_from(res: LabelResolvedScene, scene: AVG32Scene) -> bool {
    &&& scene.header == res.header
    &&& scene.opcodes@.len() == concat_ops(res.labels@).len()
    &&& forall|i: int| 0 <= i < scene.opcodes@.len() ==> op_rel(pos_pair_ok(res.labels@),
        #[trigger] scene.opcodes@[i], concat_ops(res.labels@)[i])
}

/// Two opcodes that are equal except that table operands may live in
/// different vectors with equal contents.
pub open spec fn op_like(a: Opcode, b: Opcode) -> bool {
    match a {
        Opcode::TableCall(v, ps) => b matches Opcode::TableCall(v2, ps2) && v2 == v
            && ps2@ == ps@,
        Opcode::TableJump(v, ps) => b matches Opcode::TableJump(v2, ps2) && v2 == v
            && ps2@ == ps@,
        _ => b == a,
    }
}

/// Label idempotence: resolving a scene's offsets to names and compiling
/// them back restores the original scene, opcode for opcode, because both
/// directions measure block offsets against the same block list and block
/// names are distinct.
pub proof fn lemma_label_round_trip(scene: AVG32Scene, res: LabelResolvedScene, back: AVG32Scene)
    requires
        resolved_from(scene, res),
        compiled_from(res, back),
    ensures
        back.header == scene.header,
        back.opcodes@.len() == scene.opcodes@.len(),
        forall|i: int| 0 <= i < scene.opcodes@.len() ==> op_like(#[trigger] scene.opcodes@[i],
            back.opcodes@[i]),
{
    let ls = res.labels@;
    let mid = concat_ops(ls);
    assert forall|i: int| 0 <= i < scene.opcodes@.len() implies op_like(scene.opcodes@[i],
        back.opcodes@[i]) by {
        lemma_op_round_trip(ls, scene.opcodes@[i], mid[i], back.opcodes@[i]);
    }
}

/// Pointwise round trip over one opcode.
proof fn lemma_op_round_trip(ls: Seq<Label>, a: Opcode, b: Opcode, c: Opcode)
    requires
        distinct_names(ls),
        op_rel(pos_pair_ok(ls), a, b),
        op_rel(pos_pair_ok(ls), c, b),
    ensures
        op_like(a, c),
{
    match a {
        Opcode::Condition(cs, p) => {
            lemma_pos_round_trip(ls, p, b->Condition_1, c->Condition_1);
        },
        Opcode::Call(p) => {
            lemma_pos_round_trip(ls, p, b->Call_0, c->Call_0);
        },
        Opcode::Jump(p) => {
            lemma_pos_round_trip(ls, p, b->Jump_0, c->Jump_0);
        },
        Opcode::TableCall(v, ps) => {
            let ps2 = b->TableCall_1;
            let ps3 = c->TableCall_1;
            assert forall|k: int| 0 <= k < ps@.len() implies ps3@[k] == #[trigger] ps@[k] by {
                lemma_pos_round_trip(ls, ps@[k], ps2@[k], ps3@[k]);
            }
            assert(ps3@ =~= ps@);
        },
        Opcode::TableJump(v, ps) => {
            let ps2 = b->TableJump_1;
            let ps3 = c->TableJump_1;
            assert forall|k: int| 0 <= k < ps@.len() implies ps3@[k] == #[trigger] ps@[k] by {
                lemma_pos_round_trip(ls, ps@[k], ps2@[k], ps3@[k]);
            }
            assert(ps3@ =~= ps@);
        },
        _ => {},
    }
}

/// Pointwise position round trip: with distinct block names, the offset a
/// name stands for is unique.
proof fn lemma_pos_round_trip(ls: Seq<Label>, p: Pos, q: Pos, r: Pos)
    requires
        distinct_names(ls),
        pos_pair_ok(ls)(p, q),
        pos_pair_ok(ls)(r, q),
    ensures
        r == p,
{
    let n = q->Label_0@;
    let j1 = choose|j: int| 0 <= j < ls.len() && (#[trigger] ls[j].name)@ == n
        && block_start(ls, j) == p->Offset_0;
    let j2 = choose|j: int| 0 <= j < ls.len() && (#[trigger] ls[j].name)@ == n
        && block_start(ls, j) == r->Offset_0;
    if j1 != j2 {
        assert(ls[j1].name@ != ls[j2].name@);
    }
    assert(p->Offset_0 == r->Offset_0);
}

/// Rewriting a position either way keeps its size and validity, so block
/// offsets measured over rewritten opcodes equal those over the originals.
pub proof fn lemma_op_rel_size(rel: spec_fn(Pos, Pos) -> bool, a: Opcode, b: Opcode)
    requires
        op_rel(rel, a, b),
    ensures
        a.wire().len() == b.wire().len(),
        a.wf() == b.wf(),
{
    match a {
        Opcode::TableCall(v, ps) => {
            lemma_pos_seq_wire_len(ps@);
            lemma_pos_seq_wire_len(b->TableCall_1@);
        },
        Opcode::TableJump(v, ps) => {
            lemma_pos_seq_wire_len(ps@);
            lemma_pos_seq_wire_len(b->TableJump_1@);
        },
        _ => {},
    }
}

/// Every position occupies four wire bytes, whichever state it is in.
pub proof fn lemma_pos_seq_wire_len(ps: Seq<Pos>)
    ensures
        seq_wire(ps).len() == 4 * ps.len(),
    decreases ps.len(),
{
    if ps.len() > 0 {
        lemma_pos_seq_wire_len(ps.drop_first());
    }
}

/// Two opcode lists whose elements pair under some relation have byte
/// images of the same length, position for position.
pub proof fn lemma_seq_wire_len_pointwise(
    rel: spec_fn(Pos, Pos) -> bool,
    a: Seq<Opcode>,
    b: Seq<Opcode>,
)
    requires
        a.len() == b.len(),
        forall|i: int| 0 <= i < a.len() ==> op_rel(rel, #[trigger] a[i], b[i]),
    ensures
        seq_wire(a).len() == seq_wire(b).len(),
    decreases a.len(),
{
    if a.len() > 0 {
        lemma_op_rel_size(rel, a[0], b[0]);
        assert(forall|i: int| 0 <= i < a.drop_first().len() ==> op_rel(rel,
            #[trigger] a.drop_first()[i], b.drop_first()[i]));
        lemma_seq_wire_len_pointwise(rel, a.drop_first(), b.drop_first());
    }
}

/// Rewrite one position from its byte offset to the name the table gives
/// it; `MisalignedOpcode` naming the offset when no row carries it, and
/// `LabelsAlreadyResolved` when the position is already symbolic.
fn resolve_pos(p: Pos, table: &Vec<(u32, String)>) -> (r: Result<Pos, CodecError>)
    ensures
        r matches Ok(q) ==> pos_tab_ok(table@)(p, q),
        p is Offset && r is Err ==> r == Err::<Pos, CodecError>(CodecError::MisalignedOpcode(
            p->Offset_0)),
        p is Label ==> r == Err::<Pos, CodecError>(CodecError::LabelsAlreadyResolved),
{
    match p {
        Pos::Offset(b) => {
            let mut j: usize = 0;
            while j < table.len()
                invariant
                    j <= table@.len(),
                    p == Pos::Offset(b),
                decreases table@.len() - j,
            {
                if table[j].0 == b {
                    let q = Pos::Label(table[j].1.clone());
                    proof {
                        assert(table@[j as int].0 == b && table@[j as int].1@ == q->Label_0@);
                        assert(p is Offset && p->Offset_0 == b);
                        assert(exists|jx: int| 0 <= jx < table@.len()
                            && (#[trigger] table@[jx]).0 == b && table@[jx].1@ == q->Label_0@);
                        assert(pos_tab_ok(table@)(p, q));
                    }
                    return Ok(q);
                }
                j = j + 1;
            }
            Err(CodecError::MisalignedOpcode(b))
        },
        Pos::Label(_) => Err(CodecError::LabelsAlreadyResolved),
    }
}

/// Rewrite a whole position table forward.
fn resolve_pos_list(ps: Vec<Pos>, table: &Vec<(u32, String)>) -> (r: Result<Vec<Pos>, CodecError>)
    ensures
        r is Err ==> r matches Err(CodecError::MisalignedOpcode(_))
            || r == Err::<Vec<Pos>, CodecError>(CodecError::LabelsAlreadyResolved),
        r matches Ok(out) ==> out@.len() == ps@.len()
            && forall|k: int| 0 <= k < ps@.len() ==> pos_tab_ok(table@)(#[trigger] ps@[k], out@[k]),
{
    let ghost orig = ps@;
    let mut rest = ps;
    let mut out: Vec<Pos> = Vec::new();
    while rest.len() > 0
        invariant
            rest@ == orig.subrange(out@.len() as int, orig.len() as int),
            out@.len() <= orig.len(),
            forall|k: int| 0 <= k < out@.len() ==> pos_tab_ok(table@)(#[trigger] orig[k], out@[k]),
        decreases rest@.len(),
    {
        let p = rest.remove(0);
        proof {
            assert(p == orig[out@.len() as int]);
        }
        let q = resolve_pos(p, table)?;
        out.push(q);
        proof {
            assert(rest@ =~= orig.subrange(out@.len() as int, orig.len() as int));
        }
    }
    Ok(out)
}

/// Rewrite one opcode's control operands from offsets to names.
fn resolve_op(op: Opcode, table: &Vec<(u32, String)>) -> (r: Result<Opcode, CodecError>)
    ensures
        r is Err ==> r matches Err(CodecError::MisalignedOpcode(_))
            || r == Err::<Opcode, CodecError>(CodecError::LabelsAlreadyResolved),
        r matches Ok(o) ==> op_rel(pos_tab_ok(table@), op, o),
{
    match op {
        Opcode::Condition(cs, p) => {
            let q = resolve_pos(p, table)?;
            Ok(Opcode::Condition(cs, q))
        },
        Opcode::Call(p) => {
            let q = resolve_pos(p, table)?;
            Ok(Opcode::Call(q))
        },
        Opcode::Jump(p) => {
            let q = resolve_pos(p, table)?;
            Ok(Opcode::Jump(q))
        },
        Opcode::TableCall(v, ps) => {
            let qs = resolve_pos_list(ps, table)?;
            Ok(Opcode::TableCall(v, qs))
        },
        Opcode::TableJump(v, ps) => {
            let qs = resolve_pos_list(ps, table)?;
            Ok(Opcode::TableJump(v, qs))
        },
        other => Ok(other),
    }
}

/// Rewrite every control operand of an opcode list from byte offsets to
/// the names the table assigns their targets.
pub fn convert_byte_to_label_positions(ops: Vec<Opcode>, table: &Vec<(u32, String)>) -> (r: Result<
    Vec<Opcode>,
    CodecError,
>)
    ensures
        r is Err ==> r matches Err(CodecError::MisalignedOpcode(_))
            || r == Err::<Vec<Opcode>, CodecError>(CodecError::LabelsAlreadyResolved),
        r matches Ok(out) ==> out@.len() == ops@.len()
            && forall|i: int| 0 <= i < ops@.len() ==> op_rel(pos_tab_ok(table@),
                #[trigger] ops@[i], out@[i]),
{
    let ghost orig = ops@;
    let mut rest = ops;
    let mut out: Vec<Opcode> = Vec::new();
    while rest.len() > 0
        invariant
            rest@ == orig.subrange(out@.len() as int, orig.len() as int),
            out@.len() <= orig.len(),
            forall|i: int| 0 <= i < out@.len() ==> op_rel(pos_tab_ok(table@),
                #[trigger] orig[i], out@[i]),
        decreases rest@.len(),
    {
        let op = rest.remove(0);
        proof {
            assert(op == orig[out@.len() as int]);
        }
        let o2 = resolve_op(op, table)?;
        out.push(o2);
        proof {
            assert(rest@ =~= orig.subrange(out@.len() as int, orig.len() as int));
        }
    }
    Ok(out)
}

/// A name some table row carries.
pub open spec fn table_has_name(tbl: Seq<(String, u32)>, n: Seq<char>) -> bool {
    exists|j: int| 0 <= j < tbl.len() && (#[trigger] tbl[j]).0@ == n
}

/// Rewrite one position from its name back to the offset the table gives
/// it; `UnknownLabel` exactly when no row carries the name and
/// `LabelsNotResolved` exactly when the position is already a byte offset.
fn compile_pos(p: Pos, table: &Vec<(String, u32)>) -> (r: Result<Pos, CodecError>)
    ensures
        r is Ok <==> p is Label && table_has_name(table@, p->Label_0@),
        r is Err ==> r matches Err(CodecError::UnknownLabel(_))
            || r == Err::<Pos, CodecError>(CodecError::LabelsNotResolved),
        r matches Ok(q) ==> pos_rtab_ok(table@)(q, p),
        p is Offset ==> r == Err::<Pos, CodecError>(CodecError::LabelsNotResolved),
        p is Label && !table_has_name(table@, p->Label_0@)
            ==> r == Err::<Pos, CodecError>(CodecError::UnknownLabel(p->Label_0)),
{
    match p {
        Pos::Label(n) => {
            let mut j: usize = 0;
            while j < table.len()
                invariant
                    j <= table@.len(),
                    p == Pos::Label(n),
                    forall|jj: int| 0 <= jj < j ==> (#[trigger] table@[jj]).0@ != n@,
                decreases table@.len() - j,
            {
                if table[j].0 == n {
                    let q = Pos::Offset(table[j].1);
                    proof {
                        assert(table@[j as int].0@ == n@ && table@[j as int].1 == q->Offset_0);
                        assert(p is Label && p->Label_0@ == n@);
                        assert(exists|jx: int| 0 <= jx < table@.len()
                            && (#[trigger] table@[jx]).0@ == n@ && table@[jx].1 == q->Offset_0);
                        assert(pos_rtab_ok(table@)(q, p));
                        assert(table_has_name(table@, p->Label_0@));
                    }
                    return Ok(q);
                }
                j = j + 1;
            }
            proof {
                assert(!table_has_name(table@, p->Label_0@));
            }
            Err(CodecError::UnknownLabel(n))
        },
        Pos::Offset(_) => Err(CodecError::LabelsNotResolved),
    }
}

/// A position the table can rewrite back: symbolic with a known name.
pub open spec fn pos_tab_compilable(tbl: Seq<(String, u32)>, p: Pos) -> bool {
    p is Label && table_has_name(tbl, p->Label_0@)
}

/// Rewrite a whole position table back; succeeds exactly when every
/// position is symbolic with a known name.
fn compile_pos_list(ps: Vec<Pos>, table: &Vec<(String, u32)>) -> (r: Result<Vec<Pos>, CodecError>)
    ensures
        r is Ok <==> (forall|k: int| 0 <= k < ps@.len() ==> pos_tab_compilable(table@,
            #[trigger] ps@[k])),
        r is Err ==> r matches Err(CodecError::UnknownLabel(_))
            || r == Err::<Vec<Pos>, CodecError>(CodecError::LabelsNotResolved),
        r matches Ok(out) ==> out@.len() == ps@.len()
            && forall|k: int| 0 <= k < ps@.len() ==> pos_rtab_ok(table@)(#[trigger] out@[k],
                ps@[k]),
{
    let ghost orig = ps@;
    let mut rest = ps;
    let mut out: Vec<Pos> = Vec::new();
    while rest.len() > 0
        invariant
            orig == ps@,
            rest@ == orig.subrange(out@.len() as int, orig.len() as int),
            out@.len() <= orig.len(),
            forall|k: int| 0 <= k < out@.len() ==> pos_rtab_ok(table@)(#[trigger] out@[k],
                orig[k]),
            forall|k: int| 0 <= k < out@.len() ==> pos_tab_compilable(table@,
                #[trigger] orig[k]),
        decreases rest@.len(),
    {
        let p = rest.remove(0);
        proof {
            assert(p == orig[out@.len() as int]);
        }
        let q = match compile_pos(p, table) {
            Ok(q) => q,
            Err(e) => {
                proof {
                    assert(out@.len() < ps@.len());
                    assert(!pos_tab_compilable(table@, ps@[out@.len() as int]));
                    assert(!(forall|k: int| 0 <= k < ps@.len() ==> pos_tab_compilable(table@,
                        #[trigger] ps@[k])));
                }
                return Err(e);
            },
        };
        proof {
            assert(pos_tab_compilable(table@, orig[out@.len() as int]));
        }
        out.push(q);
        proof {
            assert(rest@ =~= orig.subrange(out@.len() as int, orig.len() as int));
        }
    }
    Ok(out)
}

/// Every control operand of the opcode is symbolic with a known name.
pub open spec fn op_tab_compilable(tbl: Seq<(String, u32)>, op: Opcode) -> bool {
    forall|k: int| 0 <= k < op_targets(op).len() ==> pos_tab_compilable(tbl,
        (#[trigger] op_targets(op)[k]).1)
}

/// Rewrite one opcode's control operands from names back to offsets;
/// succeeds exactly when every operand is symbolic with a known name.
fn compile_op(op: Opcode, table: &Vec<(String, u32)>) -> (r: Result<Opcode, CodecError>)
    ensures
        r is Ok <==> op_tab_compilable(table@, op),
        r is Err ==> r matches Err(CodecError::UnknownLabel(_))
            || r == Err::<Opcode, CodecError>(CodecError::LabelsNotResolved),
        r matches Ok(o) ==> op_rel(pos_rtab_ok(table@), o, op),
{
    let ghost tgts = op_targets(op);
    match op {
        Opcode::Condition(cs, p) => {
            proof {
                assert(tgts =~= seq![(LabelKind::Condition, p)]);
            }
            let q = match compile_pos(p, table) {
                Ok(q) => q,
                Err(e) => {
                    proof {
                        assert(!pos_tab_compilable(table@, tgts[0].1));
                    }
                    return Err(e);
                },
            };
            proof {
                lemma_single_target_compilable(table@, op, p);
            }
            Ok(Opcode::Condition(cs, q))
        },
        Opcode::Call(p) => {
            proof {
                assert(tgts =~= seq![(LabelKind::Call, p)]);
            }
            let q = match compile_pos(p, table) {
                Ok(q) => q,
                Err(e) => {
                    proof {
                        assert(!pos_tab_compilable(table@, tgts[0].1));
                    }
                    return Err(e);
                },
            };
            proof {
                lemma_single_target_compilable(table@, op, p);
            }
            Ok(Opcode::Call(q))
        },
        Opcode::Jump(p) => {
            proof {
                assert(tgts =~= seq![(LabelKind::Jump, p)]);
            }
            let q = match compile_pos(p, table) {
                Ok(q) => q,
                Err(e) => {
                    proof {
                        assert(!pos_tab_compilable(table@, tgts[0].1));
                    }
                    return Err(e);
                },
            };
            proof {
                lemma_single_target_compilable(table@, op, p);
            }
            Ok(Opcode::Jump(q))
        },
        Opcode::TableCall(v, ps) => {
            proof {
                assert(forall|k: int| 0 <= k < ps@.len() ==> (#[trigger] tgts[k]).1 == ps@[k]);
            }
            let qs = match compile_pos_list(ps, table) {
                Ok(qs) => qs,
                Err(e) => {
                    proof {
                        let k = choose|k: int| 0 <= k < ps@.len()
                            && !pos_tab_compilable(table@, #[trigger] ps@[k]);
                        assert(!pos_tab_compilable(table@, tgts[k].1));
                    }
                    return Err(e);
                },
            };
            proof {
                assert forall|k: int| 0 <= k < tgts.len()
                    implies pos_tab_compilable(table@, (#[trigger] tgts[k]).1) by {
                    assert(pos_tab_compilable(table@, ps@[k]));
                }
            }
            Ok(Opcode::TableCall(v, qs))
        },
        Opcode::TableJump(v, ps) => {
            proof {
                assert(forall|k: int| 0 <= k < ps@.len() ==> (#[trigger] tgts[k]).1 == ps@[k]);
            }
            let qs = match compile_pos_list(ps, table) {
                Ok(qs) => qs,
                Err(e) => {
                    proof {
                        let k = choose|k: int| 0 <= k < ps@.len()
                            && !pos_tab_compilable(table@, #[trigger] ps@[k]);
                        assert(!pos_tab_compilable(table@, tgts[k].1));
                    }
                    return Err(e);
                },
            };
            proof {
                assert forall|k: int| 0 <= k < tgts.len()
                    implies pos_tab_compilable(table@, (#[trigger] tgts[k]).1) by {
                    assert(pos_tab_compilable(table@, ps@[k]));
                }
            }
            Ok(Opcode::TableJump(v, qs))
        },
        other => {
            proof {
                assert(op_targets(other).len() == 0);
            }
            Ok(other)
        },
    }
}

/// A one-target opcode is compilable once its single operand is.
proof fn lemma_single_target_compilable(tbl: Seq<(String, u32)>, op: Opcode, p: Pos)
    requires
        op_targets(op).len() == 1,
        op_targets(op)[0].1 == p,
        pos_tab_compilable(tbl, p),
    ensures
        op_tab_compilable(tbl, op),
{
    assert forall|k: int| 0 <= k < op_targets(op).len()
        implies pos_tab_compilable(tbl, (#[trigger] op_targets(op)[k]).1) by {
        assert(k == 0);
    }
}

/// Rewrite every control operand of an opcode list from names back to the
/// offsets the table assigns them; succeeds exactly when every operand of
/// every opcode is symbolic with a known name.
pub fn convert_label_to_byte_positions(ops: Vec<Opcode>, table: &Vec<(String, u32)>) -> (r: Result<
    Vec<Opcode>,
    CodecError,
>)
    ensures
        r is Ok <==> (forall|i: int| 0 <= i < ops@.len() ==> op_tab_compilable(table@,
            #[trigger] ops@[i])),
        r is Err ==> r matches Err(CodecError::UnknownLabel(_))
            || r == Err::<Vec<Opcode>, CodecError>(CodecError::LabelsNotResolved),
        r matches Ok(out) ==> out@.len() == ops@.len()
            && forall|i: int| 0 <= i < ops@.len() ==> op_rel(pos_rtab_ok(table@),
                #[trigger] out@[i], ops@[i]),
{
    let ghost orig = ops@;
    let mut rest = ops;
    let mut out: Vec<Opcode> = Vec::new();
    while rest.len() > 0
        invariant
            orig == ops@,
            rest@ == orig.subrange(out@.len() as int, orig.len() as int),
            out@.len() <= orig.len(),
            forall|i: int| 0 <= i < out@.len() ==> op_rel(pos_rtab_ok(table@),
                #[trigger] out@[i], orig[i]),
            forall|i: int| 0 <= i < out@.len() ==> op_tab_compilable(table@,
                #[trigger] orig[i]),
        decreases rest@.len(),
    {
        let op = rest.remove(0);
        proof {
            assert(op == orig[out@.len() as int]);
        }
        let o2 = match compile_op(op, table) {
            Ok(o2) => o2,
            Err(e) => {
                proof {
                    assert(out@.len() < ops@.len());
                    assert(!op_tab_compilable(table@, ops@[out@.len() as int]));
                    assert(!(forall|i: int| 0 <= i < ops@.len() ==> op_tab_compilable(table@,
                        #[trigger] ops@[i])));
                }
                return Err(e);
            },
        };
        proof {
            assert(op_tab_compilable(table@, orig[out@.len() as int]));
        }
        out.push(o2);
        proof {
            assert(rest@ =~= orig.subrange(out@.len() as int, orig.len() as int));
        }
    }
    Ok(out)
}

/// Replace or insert a target offset with the least operand-kind rank seen
/// for it; rows at offset zero are never touched, so the start sentinel at
/// the head of the list survives every insertion.
fn upsert_target(raw: &mut Vec<(u32, u8)>, b: u32, rank: u8)
    requires
        old(raw)@.len() >= 1,
        old(raw)@[0].0 == 0,
    ensures
        final(raw)@.len() >= 1,
        final(raw)@[0] == old(raw)@[0],
        b == 0 ==> final(raw)@ == old(raw)@,
        b != 0 && (forall|j: int| 0 <= j < old(raw)@.len() ==> (#[trigger] old(raw)@[j]).0 != b)
            ==> final(raw)@ == old(raw)@.push((b, rank)),
        forall|j: int| b != 0 && 0 <= j < old(raw)@.len() && (#[trigger] old(raw)@[j]).0 == b
            && (forall|i: int| 0 <= i < j ==> (#[trigger] old(raw)@[i]).0 != b)
            ==> final(raw)@ == (if rank < old(raw)@[j].1 {
                old(raw)@.update(j, (b, rank))
            } else {
                old(raw)@
            }),
{
    if b == 0 {
        return;
    }
    let mut j: usize = 0;
    while j < raw.len()
        invariant
            j <= raw@.len(),
            raw@ == old(raw)@,
            b != 0,
            old(raw)@.len() >= 1,
            old(raw)@[0].0 == 0,
            forall|i: int| 0 <= i < j ==> (#[trigger] old(raw)@[i]).0 != b,
        decreases raw@.len() - j,
    {
        let (off, r0) = raw[j];
        if off == b {
            proof {
                assert forall|jx: int| 0 <= jx < old(raw)@.len() && (old(raw)@[jx]).0 == b
                    && (forall|i: int| 0 <= i < jx ==> (#[trigger] old(raw)@[i]).0 != b)
                    implies jx == j by {
                    if jx < j {
                        assert(old(raw)@[jx].0 != b);
                    }
                    if jx > j {
                        assert(old(raw)@[j as int].0 != b);
                    }
                }
            }
            if rank < r0 {
                raw.set(j, (b, rank));
                proof {
                    assert(j != 0);
                }
            }
            return;
        }
        j = j + 1;
    }
    raw.push((b, rank));
}

/// Resolve a scene's byte-offset targets to symbolic labels: collect every
/// target, name each distinct offset after the least-ranked kind that
/// references it (offset zero is named for the stream start), cut the
/// stream into blocks at those offsets, and rewrite the operands.
/// `LabelsAlreadyResolved` exactly when a target is already symbolic and
/// `MisalignedOpcode` when a target does not fall on an instruction
/// boundary inside the stream. Every block's name follows the generated
/// scheme at the block's own offset, a block named for the stream start
/// exists at offset zero, and blocks come in ascending offset order.
#[verifier::rlimit(100)]
#[verifier::spinoff_prover]
pub fn resolve_labels(scene: AVG32Scene) -> (r: Result<LabelResolvedScene, CodecError>)
    requires
        seq_wire(scene.opcodes@).len() <= u32::MAX,
    ensures
        r matches Ok(res) ==> resolved_from(scene, res),
        !scene_offsets_only(scene.opcodes@) ==> r == Err::<LabelResolvedScene, CodecError>(
            CodecError::LabelsAlreadyResolved),
        r is Err ==> r == Err::<LabelResolvedScene, CodecError>(CodecError::LabelsAlreadyResolved)
            || r matches Err(CodecError::MisalignedOpcode(_))
            || r matches Err(CodecError::UnknownLabel(_)),
        r matches Ok(res) ==> forall|j: int| 0 <= j < res.labels@.len()
            ==> (#[trigger] res.labels@[j]).name@ == start_name()
                || exists|k: LabelKind| res.labels@[j].name@ == #[trigger] label_name(k,
                    block_start(res.labels@, j) as u32),
        r matches Ok(res) ==> has_start_block(res.labels@),
        r matches Ok(res) ==> forall|j1: int, j2: int| 0 <= j1 <= j2 <= res.labels@.len()
            ==> #[trigger] block_start(res.labels@, j1) <= #[trigger] block_start(res.labels@,
                j2),
        r matches Ok(res) ==> forall|j: int| 0 <= j < res.labels@.len()
            && #[trigger] block_start(res.labels@, j) != 0
            ==> named_for_least_kind(scene.opcodes@, block_start(res.labels@, j) as u32,
                res.labels@[j].name@),
{
    let AVG32Scene { header, opcodes } = scene;
    // collect the distinct targets with their defining kinds
    let mut raw: Vec<(u32, u8)> = Vec::new();
    raw.push((0u32, 5u8));
    proof {
        assert forall|b2: u32, r2: int| !#[trigger] has_target_upto(opcodes@, 0, 0, b2, r2) by {
            lemma_upto_empty(opcodes@, b2, r2);
        }
    }
    let mut idx: usize = 0;
    while idx < opcodes.len()
        invariant
            idx <= opcodes@.len(),
            opcodes@ == scene.opcodes@,
            raw@.len() >= 1,
            raw@[0] == (0u32, 5u8),
            forall|ii: int| 0 <= ii < idx ==> op_offsets_only(#[trigger] opcodes@[ii]),
            forall|m: int| 1 <= m < raw@.len() ==> row_min_upto(opcodes@, idx as int, 0,
                #[trigger] raw@[m]),
            forall|b2: u32, r2: int| #[trigger] has_target_upto(opcodes@, idx as int, 0, b2, r2)
                && b2 != 0 ==> exists|m: int| 1 <= m < raw@.len() && (#[trigger] raw@[m]).0 == b2,
            forall|m1: int, m2: int| 0 <= m1 < m2 < raw@.len()
                ==> (#[trigger] raw@[m1]).0 != (#[trigger] raw@[m2]).0,
        decreases opcodes@.len() - idx,
    {
        match extract_label(&opcodes[idx]) {
            Some(v) => {
                let mut t: usize = 0;
                while t < v.len()
                    invariant
                        t <= v@.len(),
                        idx < opcodes@.len(),
                        opcodes@ == scene.opcodes@,
                        raw@.len() >= 1,
                        raw@[0] == (0u32, 5u8),
                        v@.len() == op_targets(opcodes@[idx as int]).len(),
                        forall|i: int| 0 <= i < v@.len() ==> (#[trigger] v@[i]).pos
                            == op_targets(opcodes@[idx as int])[i].1,
                        forall|i: int| 0 <= i < v@.len() ==> (#[trigger] v@[i]).kind
                            == op_targets(opcodes@[idx as int])[i].0,
                        forall|tt: int| 0 <= tt < t ==> (#[trigger] v@[tt]).pos is Offset,
                        forall|m: int| 1 <= m < raw@.len() ==> row_min_upto(opcodes@,
                            idx as int, t as int, #[trigger] raw@[m]),
                        forall|b2: u32, r2: int| #[trigger] has_target_upto(opcodes@,
                            idx as int, t as int, b2, r2) && b2 != 0
                            ==> exists|m: int| 1 <= m < raw@.len()
                                && (#[trigger] raw@[m]).0 == b2,
                        forall|m1: int, m2: int| 0 <= m1 < m2 < raw@.len()
                            ==> (#[trigger] raw@[m1]).0 != (#[trigger] raw@[m2]).0,
                    decreases v@.len() - t,
                {
                    match &v[t].pos {
                        Pos::Offset(b) => {
                            let rank: u8 = match v[t].kind {
                                LabelKind::Condition => 0,
                                LabelKind::Call => 1,
                                LabelKind::Jump => 2,
                                LabelKind::TableCall => 3,
                                LabelKind::TableJump => 4,
                            };
                            let bv: u32 = *b;
                            let ghost pre = raw@;
                            let ghost gi = idx as int;
                            let ghost gt = t as int;
                            proof {
                                assert(v@[gt].pos == Pos::Offset(bv));
                                assert(op_targets(opcodes@[gi])[gt].1 == Pos::Offset(bv));
                                assert(kind_rank(op_targets(opcodes@[gi])[gt].0) == rank as int);
                            }
                            upsert_target(&mut raw, bv, rank);
                            proof {
                                assert forall|b2: u32, r2: int|
                                    has_target_upto(opcodes@, gi, gt + 1, b2, r2)
                                        == (has_target_upto(opcodes@, gi, gt, b2, r2)
                                            || (b2 == bv && r2 == rank as int)) by {
                                    lemma_upto_next_target(opcodes@, gi, gt, b2, r2);
                                }
                                if bv == 0 {
                                    assert(raw@ == pre);
                                    assert forall|m: int| 1 <= m < raw@.len()
                                        implies row_min_upto(opcodes@, gi, gt + 1,
                                            #[trigger] raw@[m]) by {
                                        assert(row_min_upto(opcodes@, gi, gt, pre[m]));
                                        assert forall|r2: int| #[trigger] has_target_upto(
                                            opcodes@, gi, gt + 1, pre[m].0, r2)
                                            implies pre[m].1 as int <= r2 by {
                                            assert(has_target_upto(opcodes@, gi, gt,
                                                pre[m].0, r2));
                                        }
                                    }
                                    assert forall|b2: u32, r2: int| #[trigger] has_target_upto(
                                        opcodes@, gi, gt + 1, b2, r2) && b2 != 0
                                        implies exists|m: int| 1 <= m < raw@.len()
                                            && (#[trigger] raw@[m]).0 == b2 by {
                                        assert(has_target_upto(opcodes@, gi, gt, b2, r2));
                                    }
                                } else if exists|m: int| 0 <= m < pre.len()
                                    && (#[trigger] pre[m]).0 == bv {
                                    let m = choose|m: int| 0 <= m < pre.len()
                                        && (#[trigger] pre[m]).0 == bv;
                                    assert(pre[0].0 == 0);
                                    assert(m >= 1);
                                    assert forall|i2: int| 0 <= i2 < m
                                        implies (#[trigger] pre[i2]).0 != bv by {
                                        assert(pre[i2].0 != pre[m].0);
                                    }
                                    let newraw = if rank < pre[m].1 {
                                        pre.update(m, (bv, rank))
                                    } else {
                                        pre
                                    };
                                    assert(raw@ == newraw);
                                    assert(raw@.len() == pre.len());
                                    assert forall|mm: int| 0 <= mm < raw@.len()
                                        implies (#[trigger] raw@[mm]).0 == pre[mm].0 by {}
                                    assert forall|mm: int| 1 <= mm < raw@.len()
                                        implies row_min_upto(opcodes@, gi, gt + 1,
                                            #[trigger] raw@[mm]) by {
                                        if mm == m {
                                            assert(row_min_upto(opcodes@, gi, gt, pre[m]));
                                            if rank < pre[m].1 {
                                                assert(raw@[mm] == (bv, rank));
                                                assert(has_target_upto(opcodes@, gi, gt + 1,
                                                    bv, rank as int));
                                            } else {
                                                assert(raw@[mm] == pre[m]);
                                                assert(has_target_upto(opcodes@, gi, gt,
                                                    pre[m].0, pre[m].1 as int));
                                            }
                                            assert forall|r2: int| #[trigger] has_target_upto(
                                                opcodes@, gi, gt + 1, bv, r2)
                                                implies raw@[mm].1 as int <= r2 by {
                                                if has_target_upto(opcodes@, gi, gt, bv, r2) {
                                                    assert(pre[m].1 as int <= r2);
                                                } else {
                                                    assert(r2 == rank as int);
                                                }
                                            }
                                        } else {
                                            assert(raw@[mm] == pre[mm]);
                                            assert(row_min_upto(opcodes@, gi, gt, pre[mm]));
                                            assert(pre[mm].0 != bv);
                                            assert forall|r2: int| #[trigger] has_target_upto(
                                                opcodes@, gi, gt + 1, pre[mm].0, r2)
                                                implies pre[mm].1 as int <= r2 by {
                                                assert(has_target_upto(opcodes@, gi, gt,
                                                    pre[mm].0, r2));
                                            }
                                        }
                                    }
                                    assert forall|b2: u32, r2: int| #[trigger] has_target_upto(
                                        opcodes@, gi, gt + 1, b2, r2) && b2 != 0
                                        implies exists|mm: int| 1 <= mm < raw@.len()
                                            && (#[trigger] raw@[mm]).0 == b2 by {
                                        if b2 == bv {
                                            assert(raw@[m].0 == bv);
                                        } else {
                                            assert(has_target_upto(opcodes@, gi, gt, b2, r2));
                                            let mm = choose|mm: int| 1 <= mm < pre.len()
                                                && (#[trigger] pre[mm]).0 == b2;
                                            assert(raw@[mm].0 == b2);
                                        }
                                    }
                                } else {
                                    assert forall|j2: int| 0 <= j2 < pre.len()
                                        implies (#[trigger] pre[j2]).0 != bv by {}
                                    assert(raw@ == pre.push((bv, rank)));
                                    assert forall|mm: int| 1 <= mm < raw@.len()
                                        implies row_min_upto(opcodes@, gi, gt + 1,
                                            #[trigger] raw@[mm]) by {
                                        if mm < pre.len() {
                                            assert(raw@[mm] == pre[mm]);
                                            assert(row_min_upto(opcodes@, gi, gt, pre[mm]));
                                            assert(pre[mm].0 != bv);
                                            assert forall|r2: int| #[trigger] has_target_upto(
                                                opcodes@, gi, gt + 1, pre[mm].0, r2)
                                                implies pre[mm].1 as int <= r2 by {
                                                assert(has_target_upto(opcodes@, gi, gt,
                                                    pre[mm].0, r2));
                                            }
                                        } else {
                                            assert(raw@[mm] == (bv, rank));
                                            assert(has_target_upto(opcodes@, gi, gt + 1,
                                                bv, rank as int));
                                            assert forall|r2: int| #[trigger] has_target_upto(
                                                opcodes@, gi, gt + 1, bv, r2)
                                                implies rank as int <= r2 by {
                                                if has_target_upto(opcodes@, gi, gt, bv, r2) {
                                                    let mx = choose|mx: int| 1 <= mx < pre.len()
                                                        && (#[trigger] pre[mx]).0 == bv;
                                                    assert(false);
                                                }
                                            }
                                        }
                                    }
                                    assert forall|b2: u32, r2: int| #[trigger] has_target_upto(
                                        opcodes@, gi, gt + 1, b2, r2) && b2 != 0
                                        implies exists|mm: int| 1 <= mm < raw@.len()
                                            && (#[trigger] raw@[mm]).0 == b2 by {
                                        if b2 == bv {
                                            assert(raw@[pre.len() as int].0 == bv);
                                        } else {
                                            assert(has_target_upto(opcodes@, gi, gt, b2, r2));
                                            let mm = choose|mm: int| 1 <= mm < pre.len()
                                                && (#[trigger] pre[mm]).0 == b2;
                                            assert(raw@[mm].0 == b2);
                                        }
                                    }
                                }
                            }
                        },
                        Pos::Label(_) => {
                            proof {
                                assert(op_targets(opcodes@[idx as int])[t as int].1 is Label);
                                assert(!op_offsets_only(opcodes@[idx as int]));
                                assert(!scene_offsets_only(scene.opcodes@));
                            }
                            return Err(CodecError::LabelsAlreadyResolved);
                        },
                    }
                    t = t + 1;
                }
                proof {
                    assert forall|k: int| 0 <= k < op_targets(opcodes@[idx as int]).len()
                        implies (#[trigger] op_targets(opcodes@[idx as int])[k]).1 is Offset by {
                        assert(v@[k].pos is Offset);
                    }
                    let gi = idx as int;
                    let full = op_targets(opcodes@[gi]).len() as int;
                    assert forall|b2: u32, r2: int|
                        has_target_upto(opcodes@, gi, full, b2, r2)
                            == #[trigger] has_target_upto(opcodes@, gi + 1, 0, b2, r2) by {
                        lemma_upto_next_op(opcodes@, gi, b2, r2);
                    }
                    assert forall|m: int| 1 <= m < raw@.len()
                        implies row_min_upto(opcodes@, gi + 1, 0, #[trigger] raw@[m]) by {
                        assert(row_min_upto(opcodes@, gi, full, raw@[m]));
                        assert forall|r2: int| #[trigger] has_target_upto(opcodes@, gi + 1, 0,
                            raw@[m].0, r2) implies raw@[m].1 as int <= r2 by {
                            assert(has_target_upto(opcodes@, gi, full, raw@[m].0, r2));
                        }
                    }
                    assert forall|b2: u32, r2: int| #[trigger] has_target_upto(opcodes@,
                        gi + 1, 0, b2, r2) && b2 != 0
                        implies exists|m: int| 1 <= m < raw@.len()
                            && (#[trigger] raw@[m]).0 == b2 by {
                        assert(has_target_upto(opcodes@, gi, full, b2, r2));
                    }
                }
            },
            None => {
                proof {
                    assert(op_targets(opcodes@[idx as int]).len() == 0);
                    let gi = idx as int;
                    assert forall|b2: u32, r2: int|
                        has_target_upto(opcodes@, gi, 0, b2, r2)
                            == #[trigger] has_target_upto(opcodes@, gi + 1, 0, b2, r2) by {
                        lemma_upto_next_op(opcodes@, gi, b2, r2);
                    }
                    assert forall|m: int| 1 <= m < raw@.len()
                        implies row_min_upto(opcodes@, gi + 1, 0, #[trigger] raw@[m]) by {
                        assert(row_min_upto(opcodes@, gi, 0, raw@[m]));
                        assert forall|r2: int| #[trigger] has_target_upto(opcodes@, gi + 1, 0,
                            raw@[m].0, r2) implies raw@[m].1 as int <= r2 by {
                            assert(has_target_upto(opcodes@, gi, 0, raw@[m].0, r2));
                        }
                    }
                    assert forall|b2: u32, r2: int| #[trigger] has_target_upto(opcodes@,
                        gi + 1, 0, b2, r2) && b2 != 0
                        implies exists|m: int| 1 <= m < raw@.len()
                            && (#[trigger] raw@[m]).0 == b2 by {
                        assert(has_target_upto(opcodes@, gi, 0, b2, r2));
                    }
                }
            },
        }
        idx = idx + 1;
    }
    proof {
        assert(scene_offsets_only(scene.opcodes@));
        assert forall|m: int| 0 <= m < raw@.len()
            implies row_min(scene.opcodes@, #[trigger] raw@[m]) by {
            if m >= 1 {
                assert(row_min_upto(opcodes@, opcodes@.len() as int, 0, raw@[m]));
            }
        }
    }
    // sort the targets by ascending offset; the start sentinel survives
    let mut sorted: Vec<(u32, u8)> = Vec::new();
    while raw.len() > 0
        invariant
            (exists|j: int| 0 <= j < sorted@.len() && #[trigger] sorted@[j] == (0u32, 5u8))
                || (exists|j: int| 0 <= j < raw@.len() && #[trigger] raw@[j] == (0u32, 5u8)),
            forall|m: int| 0 <= m < raw@.len() ==> row_min(scene.opcodes@, #[trigger] raw@[m]),
            forall|m: int| 0 <= m < sorted@.len() ==> row_min(scene.opcodes@,
                #[trigger] sorted@[m]),
        decreases raw@.len(),
    {
        let ghost pre_raw = raw@;
        let e = raw.remove(0);
        proof {
            assert(e == pre_raw[0]);
            assert forall|m: int| 0 <= m < raw@.len()
                implies row_min(scene.opcodes@, #[trigger] raw@[m]) by {
                assert(raw@[m] == pre_raw[m + 1]);
            }
        }
        let mut at: usize = 0;
        while at < sorted.len() && sorted[at].0 < e.0
            invariant
                at <= sorted@.len(),
            decreases sorted@.len() - at,
        {
            at = at + 1;
        }
        let ghost pre_sorted = sorted@;
        sorted.insert(at, e);
        proof {
            assert forall|m: int| 0 <= m < sorted@.len()
                implies row_min(scene.opcodes@, #[trigger] sorted@[m]) by {
                if m < at {
                    assert(sorted@[m] == pre_sorted[m]);
                } else if m == at {
                    assert(sorted@[m] == e);
                } else {
                    assert(sorted@[m] == pre_sorted[m - 1]);
                }
            }
            if exists|j: int| 0 <= j < pre_sorted.len() && #[trigger] pre_sorted[j]
                == (0u32, 5u8) {
                let j = choose|j: int| 0 <= j < pre_sorted.len() && #[trigger] pre_sorted[j]
                    == (0u32, 5u8);
                if j < at {
                    assert(sorted@[j] == (0u32, 5u8));
                } else {
                    assert(sorted@[j + 1] == (0u32, 5u8));
                }
            } else {
                let j = choose|j: int| 0 <= j < pre_raw.len() && #[trigger] pre_raw[j]
                    == (0u32, 5u8);
                if j == 0 {
                    assert(e == (0u32, 5u8));
                    assert(sorted@[at as int] == (0u32, 5u8));
                } else {
                    assert(raw@[j - 1] == (0u32, 5u8));
                }
            }
        }
    }
    // name each target: the start sentinel by the fixed name, the rest by
    // their defining kind and offset
    let mut table: Vec<(u32, String)> = Vec::new();
    let mut ni: usize = 0;
    while ni < sorted.len()
        invariant
            ni <= sorted@.len(),
            table@.len() == ni,
            forall|jj: int| 0 <= jj < ni ==> (#[trigger] table@[jj]).1@ == start_name()
                || exists|k: LabelKind| table@[jj].1@ == #[trigger] label_name(k, table@[jj].0),
            (exists|j: int| 0 <= j < ni && (#[trigger] table@[j]).0 == 0
                && table@[j].1@ == start_name())
                || (exists|j: int| ni <= j < sorted@.len() && #[trigger] sorted@[j]
                    == (0u32, 5u8)),
            opcodes@ == scene.opcodes@,
            forall|m: int| 0 <= m < sorted@.len() ==> row_min(scene.opcodes@,
                #[trigger] sorted@[m]),
            forall|jj: int| 0 <= jj < ni ==> (#[trigger] table@[jj]).0 == sorted@[jj].0,
            forall|jj: int| 0 <= jj < ni ==> ((#[trigger] table@[jj]).0 != 0 ==> table@[jj].1@
                == label_name(rank_kind(sorted@[jj].1 as int), table@[jj].0)),
        decreases sorted@.len() - ni,
    {
        let ghost pre_table = table@;
        let (off, rank) = sorted[ni];
        let ghost gkind: LabelKind = if rank == 0 {
            LabelKind::Condition
        } else if rank == 1 {
            LabelKind::Call
        } else if rank == 2 {
            LabelKind::Jump
        } else if rank == 3 {
            LabelKind::TableCall
        } else {
            LabelKind::TableJump
        };
        let name = if rank == 5 {
            make_start_name()
        } else {
            let kind = match rank {
                0 => LabelKind::Condition,
                1 => LabelKind::Call,
                2 => LabelKind::Jump,
                3 => LabelKind::TableCall,
                _ => LabelKind::TableJump,
            };
            proof {
                assert(kind == gkind);
            }
            make_label_name(kind, off)
        };
        table.push((off, name));
        proof {
            assert(table@[ni as int].0 == off && table@[ni as int].1@ == name@);
            assert(row_min(scene.opcodes@, sorted@[ni as int]));
            if off != 0 {
                assert(sorted@[ni as int] != (0u32, 5u8));
                assert(row_min_upto(scene.opcodes@, scene.opcodes@.len() as int, 0,
                    (off, rank)));
                assert(has_target_upto(scene.opcodes@, scene.opcodes@.len() as int, 0, off,
                    rank as int));
                let (x, y) = choose|x: int, y: int| 0 <= x <= scene.opcodes@.len() as int
                    && x < scene.opcodes@.len()
                    && 0 <= y < op_targets(scene.opcodes@[x]).len()
                    && (x < scene.opcodes@.len() as int || y < 0)
                    && (#[trigger] op_targets(scene.opcodes@[x])[y]).1 == Pos::Offset(off)
                    && kind_rank(op_targets(scene.opcodes@[x])[y].0) == rank as int;
                assert(kind_rank(op_targets(scene.opcodes@[x])[y].0) <= 4);
                assert(rank <= 4);
                assert(gkind == rank_kind(rank as int));
                assert(table@[ni as int].1@ == label_name(rank_kind(sorted@[ni as int].1 as int),
                    table@[ni as int].0));
            }
            if rank == 5 {
                assert(table@[ni as int].1@ == start_name());
            } else {
                assert(table@[ni as int].1@ == #[trigger] label_name(gkind,
                    table@[ni as int].0));
            }
            assert forall|jj: int| 0 <= jj < ni implies table@[jj] == pre_table[jj] by {}
            if exists|j: int| 0 <= j < ni && (#[trigger] pre_table[j]).0 == 0
                && pre_table[j].1@ == start_name() {
                let j = choose|j: int| 0 <= j < ni && (#[trigger] pre_table[j]).0 == 0
                    && pre_table[j].1@ == start_name();
                assert(table@[j].0 == 0 && table@[j].1@ == start_name());
            } else {
                let j = choose|j: int| ni <= j < sorted@.len() && #[trigger] sorted@[j]
                    == (0u32, 5u8);
                if j == ni {
                    assert(table@[ni as int].0 == 0 && table@[ni as int].1@ == start_name());
                } else {
                    assert(sorted@[j] == (0u32, 5u8));
                }
            }
        }
        ni = ni + 1;
    }
    proof {
        assert(exists|j: int| 0 <= j < table@.len() && (#[trigger] table@[j]).0 == 0
            && table@[j].1@ == start_name());
        assert forall|jj: int| 0 <= jj < table@.len() && (#[trigger] table@[jj]).0 != 0
            implies named_for_least_kind(scene.opcodes@, table@[jj].0, table@[jj].1@) by {
            let row = sorted@[jj];
            assert(row_min(scene.opcodes@, row));
            assert(table@[jj].0 == row.0);
            assert(row != (0u32, 5u8));
            assert(row_min_upto(scene.opcodes@, scene.opcodes@.len() as int, 0, row));
            let r = row.1 as int;
            assert(has_target(scene.opcodes@, row.0, r));
            assert forall|r2: int| has_target(scene.opcodes@, row.0, r2) implies r <= r2 by {
                assert(has_target_upto(scene.opcodes@, scene.opcodes@.len() as int, 0,
                    row.0, r2));
            }
            assert(table@[jj].1@ == label_name(rank_kind(r), table@[jj].0));
        }
    }
    // the generated names embed distinct offsets, so they are distinct;
    // the pass still checks rather than argue about string spellings
    let mut a: usize = 0;
    while a < table.len()
        invariant
            a <= table@.len(),
            scene_offsets_only(scene.opcodes@),
            forall|x: int, y: int| 0 <= x < y < table@.len() && x < a ==> (#[trigger] table@[x]).1@
                != (#[trigger] table@[y]).1@,
        decreases table@.len() - a,
    {
        let mut bq: usize = a + 1;
        while bq < table.len()
            invariant
                a < bq <= table@.len(),
                a < table@.len(),
                scene_offsets_only(scene.opcodes@),
                forall|y: int| a < y < bq ==> (#[trigger] table@[y]).1@ != table@[a as int].1@,
            decreases table@.len() - bq,
        {
            if table[a].1 == table[bq].1 {
                return Err(CodecError::UnknownLabel(table[a].1.clone()));
            }
            bq = bq + 1;
        }
        a = a + 1;
    }
    // rewrite the operands, then cut the rewritten stream into blocks
    let ghost origseq = opcodes@;
    let mids = convert_byte_to_label_positions(opcodes, &table)?;
    let ghost mseq = mids@;
    let mut rest = mids;
    let mut blocks: Vec<Label> = Vec::new();
    let mut cur: usize = 0;
    let mut j: usize = 0;
    proof {
        lemma_seq_wire_len_pointwise(pos_tab_ok(table@), origseq, mseq);
        crate::codec::lemma_seq_wire_len_bound(mseq, mseq.len() as int);
        assert(mseq.subrange(0, 0) =~= Seq::<Opcode>::empty());
        assert(concat_ops(Seq::<Label>::empty()) =~= Seq::<Opcode>::empty());
    }
    while rest.len() > 0
        invariant
            rest@ == mseq.subrange((mseq.len() - rest@.len()) as int, mseq.len() as int),
            rest@.len() <= mseq.len(),
            blocks@.len() == j <= table@.len(),
            concat_ops(blocks@) == mseq.subrange(0, (mseq.len() - rest@.len()) as int),
            cur == seq_wire(mseq.subrange(0, (mseq.len() - rest@.len()) as int)).len(),
            seq_wire(mseq).len() <= u32::MAX,
            scene_offsets_only(scene.opcodes@),
            forall|k: int| 0 <= k <= mseq.len() ==>
                #[trigger] seq_wire(mseq.subrange(0, k)).len() <= seq_wire(mseq).len(),
            forall|jj: int| 0 <= jj < j ==> (#[trigger] blocks@[jj]).name@ == table@[jj].1@
                && block_start(blocks@, jj) == table@[jj].0,
        decreases rest@.len(),
    {
        let ghost done = (mseq.len() - rest@.len()) as int;
        if j < table.len() && table[j].0 as usize == cur {
            let nm = table[j].1.clone();
            let ghost preb = blocks@;
            blocks.push(Label { name: nm, opcodes: Vec::new() });
            proof {
                assert(blocks@.drop_last() =~= preb);
                lemma_concat_ops_push(preb, blocks@.last());
                assert(preb.push(blocks@.last()) =~= blocks@);
                assert(blocks@.drop_last() =~= blocks@.subrange(0, j as int));
                assert(blocks@.last().opcodes@ =~= Seq::<Opcode>::empty());
                assert(concat_ops(blocks@.drop_last()) == mseq.subrange(0, done));
                assert(concat_ops(blocks@) == concat_ops(blocks@.drop_last())
                    + blocks@.last().opcodes@);
                assert(concat_ops(blocks@) =~= mseq.subrange(0, done));
                assert forall|jj: int| 0 <= jj < j + 1 implies (#[trigger] blocks@[jj]).name@
                    == table@[jj].1@ && block_start(blocks@, jj) == table@[jj].0 by {
                    if jj < j {
                        assert(blocks@.subrange(0, jj) =~= preb.subrange(0, jj));
                        assert(blocks@[jj] == preb[jj]);
                    } else {
                        assert(blocks@.subrange(0, jj) =~= preb);
                    }
                }
            }
            j = j + 1;
        } else if j < table.len() && (table[j].0 as usize) < cur {
            return Err(CodecError::MisalignedOpcode(table[j].0));
        }
        if blocks.len() == 0 {
            return Err(CodecError::MisalignedOpcode(0));
        }
        let op = rest.remove(0);
        proof {
            assert(op == mseq[done]);
            assert(seq_wire(mseq.subrange(0, done + 1)).len() <= seq_wire(mseq).len());
            assert(mseq.subrange(0, done + 1) =~= mseq.subrange(0, done).push(mseq[done]));
            lemma_seq_wire_push(mseq.subrange(0, done), mseq[done]);
        }
        let sz = (&op).byte_size();
        let ghost pre_blocks = blocks@;
        let mut lb = match blocks.pop() {
            Some(l) => l,
            None => {
                return Err(CodecError::MisalignedOpcode(0));
            },
        };
        lb.opcodes.push(op);
        blocks.push(lb);
        cur = cur + sz;
        proof {
            let bs = blocks@;
            assert(bs.drop_last() =~= pre_blocks.drop_last());
            assert(bs.drop_last().push(bs.last()) =~= bs);
            lemma_concat_ops_push(bs.drop_last(), bs.last());
            lemma_concat_ops_push(pre_blocks.drop_last(), pre_blocks.last());
            assert(pre_blocks.drop_last().push(pre_blocks.last()) =~= pre_blocks);
            assert(bs.last().opcodes@ == pre_blocks.last().opcodes@.push(mseq[done]));
            assert(concat_ops(pre_blocks.drop_last()) + pre_blocks.last().opcodes@.push(mseq[done])
                =~= (concat_ops(pre_blocks.drop_last()) + pre_blocks.last().opcodes@).push(
                mseq[done]));
            assert(concat_ops(bs) =~= concat_ops(pre_blocks).push(mseq[done]));
            assert(concat_ops(bs) =~= mseq.subrange(0, done + 1));
            assert(rest@ =~= mseq.subrange((mseq.len() - rest@.len()) as int, mseq.len() as int));
            assert forall|jj: int| 0 <= jj < j implies (#[trigger] bs[jj]).name@ == table@[jj].1@
                && block_start(bs, jj) == table@[jj].0 by {
                assert(bs.subrange(0, jj) =~= pre_blocks.subrange(0, jj));
                assert(bs[jj].name == pre_blocks[jj].name);
            }
        }
    }
    proof {
        assert(mseq.subrange(0, mseq.len() as int) =~= mseq);
    }
    // trailing targets may still begin empty blocks at the stream's end
    while j < table.len()
        invariant
            blocks@.len() == j <= table@.len(),
            concat_ops(blocks@) == mseq,
            cur == seq_wire(mseq).len(),
            scene_offsets_only(scene.opcodes@),
            forall|jj: int| 0 <= jj < j ==> (#[trigger] blocks@[jj]).name@ == table@[jj].1@
                && block_start(blocks@, jj) == table@[jj].0,
        decreases table@.len() - j,
    {
        if table[j].0 as usize == cur {
            let nm = table[j].1.clone();
            let ghost preb = blocks@;
            blocks.push(Label { name: nm, opcodes: Vec::new() });
            proof {
                assert(blocks@.drop_last() =~= preb);
                lemma_concat_ops_push(preb, blocks@.last());
                assert(preb.push(blocks@.last()) =~= blocks@);
                assert(blocks@.drop_last() =~= blocks@.subrange(0, j as int));
                assert(blocks@.last().opcodes@ =~= Seq::<Opcode>::empty());
                assert(concat_ops(blocks@.drop_last()) == mseq);
                assert(concat_ops(blocks@) == concat_ops(blocks@.drop_last())
                    + blocks@.last().opcodes@);
                assert(concat_ops(blocks@) =~= mseq);
                assert forall|jj: int| 0 <= jj < j + 1 implies (#[trigger] blocks@[jj]).name@
                    == table@[jj].1@ && block_start(blocks@, jj) == table@[jj].0 by {
                    if jj < j {
                        assert(blocks@.subrange(0, jj) =~= preb.subrange(0, jj));
                        assert(blocks@[jj] == preb[jj]);
                    } else {
                        assert(blocks@.subrange(0, jj) =~= preb);
                    }
                }
            }
            j = j + 1;
        } else {
            return Err(CodecError::MisalignedOpcode(table[j].0));
        }
    }
    proof {
        assert(j == table@.len());
        assert(blocks@.len() == table@.len());
    }
    let res = LabelResolvedScene { header, labels: blocks };
    proof {
        assert(res.labels@ == blocks@);
        assert forall|jj: int| 0 <= jj < res.labels@.len()
            implies ((#[trigger] res.labels@[jj]).name@ == start_name()
                || exists|k: LabelKind| res.labels@[jj].name@ == #[trigger] label_name(k,
                    block_start(res.labels@, jj) as u32)) by {
            assert(0 <= jj < j);
            assert(blocks@[jj].name@ == table@[jj].1@);
            assert(block_start(blocks@, jj) == table@[jj].0);
            if table@[jj].1@ != start_name() {
                let k = choose|k: LabelKind| table@[jj].1@ == #[trigger] label_name(k,
                    table@[jj].0);
                assert(res.labels@[jj].name@ == label_name(k,
                    block_start(res.labels@, jj) as u32));
            }
        }
        assert(exists|jx: int| 0 <= jx < table@.len() && (#[trigger] table@[jx]).0 == 0
            && table@[jx].1@ == start_name());
        let j0 = choose|jx: int| 0 <= jx < table@.len() && (#[trigger] table@[jx]).0 == 0
            && table@[jx].1@ == start_name();
        assert(0 <= j0 < j);
        assert(blocks@[j0].name@ == table@[j0].1@);
        assert(block_start(blocks@, j0) == table@[j0].0);
        assert(res.labels@[j0].name@ == start_name() && block_start(res.labels@, j0) == 0);
        assert(has_start_block(res.labels@));
        assert forall|jj: int| 0 <= jj < res.labels@.len()
            && #[trigger] block_start(res.labels@, jj) != 0
            implies named_for_least_kind(scene.opcodes@, block_start(res.labels@, jj) as u32,
                res.labels@[jj].name@) by {
            assert(blocks@[jj].name@ == table@[jj].1@);
            assert(block_start(blocks@, jj) == table@[jj].0);
            assert(table@[jj].0 != 0);
            assert(block_start(res.labels@, jj) as u32 == table@[jj].0);
        }
        assert forall|j1: int, j2: int| 0 <= j1 <= j2 <= res.labels@.len()
            implies #[trigger] block_start(res.labels@, j1) <= #[trigger] block_start(
                res.labels@, j2) by {
            lemma_block_order(res.labels@, j1, j2);
        }
        assert(distinct_names(res.labels@));
        assert forall|i: int| 0 <= i < origseq.len() implies op_rel(pos_pair_ok(res.labels@),
            #[trigger] origseq[i], concat_ops(res.labels@)[i]) by {
            assert(op_rel(pos_tab_ok(table@), origseq[i], mseq[i]));
            assert forall|p: Pos, q: Pos| #[trigger] pos_tab_ok(table@)(p, q)
                implies pos_pair_ok(res.labels@)(p, q) by {
                let jj = choose|jj: int| 0 <= jj < table@.len()
                    && (#[trigger] table@[jj]).0 == p->Offset_0 && table@[jj].1@ == q->Label_0@;
                assert(blocks@[jj].name@ == table@[jj].1@
                    && block_start(blocks@, jj) == table@[jj].0);
                assert(res.labels@[jj].name@ == q->Label_0@
                    && block_start(res.labels@, jj) == p->Offset_0);
            }
            lemma_op_rel_mono(pos_tab_ok(table@), pos_pair_ok(res.labels@), origseq[i], mseq[i]);
        }
    }
    Ok(res)
}

/// Compilability against the offset table and against the block list
/// coincide when the table carries exactly the blocks' names.
proof fn lemma_tab_compilable_bridge(tbl: Seq<(String, u32)>, ls: Seq<Label>, op: Opcode)
    requires
        tbl.len() == ls.len(),
        forall|j: int| 0 <= j < tbl.len() ==> (#[trigger] tbl[j]).0@ == ls[j].name@,
    ensures
        op_tab_compilable(tbl, op) == op_compilable(ls, op),
{
    assert forall|n: Seq<char>| #[trigger] table_has_name(tbl, n)
        implies exists|j: int| 0 <= j < ls.len() && (#[trigger] ls[j].name)@ == n by {
        let j = choose|j: int| 0 <= j < tbl.len() && (#[trigger] tbl[j]).0@ == n;
        assert(ls[j].name@ == n);
    }
    assert forall|n: Seq<char>|
        (exists|j: int| 0 <= j < ls.len() && (#[trigger] ls[j].name)@ == n)
        implies #[trigger] table_has_name(tbl, n) by {
        let j = choose|j: int| 0 <= j < ls.len() && (#[trigger] ls[j].name)@ == n;
        assert(tbl[j].0@ == n);
    }
    assert forall|k: int| 0 <= k < op_targets(op).len()
        implies (pos_tab_compilable(tbl, (#[trigger] op_targets(op)[k]).1)
            == pos_compilable(ls, op_targets(op)[k].1)) by {
        let p = op_targets(op)[k].1;
        if p is Label {
            assert(table_has_name(tbl, p->Label_0@)
                == exists|j: int| 0 <= j < ls.len() && (#[trigger] ls[j].name)@ == p->Label_0@);
        }
    }
}

/// Compile a resolved scene back to byte offsets: recompute each block's
/// offset as the byte size of everything before it, then rewrite every
/// symbolic operand to its block's offset. `UnknownLabel` when an operand
/// names no block.
#[verifier::rlimit(100)]
#[verifier::spinoff_prover]
pub fn compile_labels(resolved: LabelResolvedScene) -> (r: Result<AVG32Scene, CodecError>)
    requires
        seq_wire(concat_ops(resolved.labels@)).len() <= u32::MAX,
    ensures
        r is Ok <==> scene_compilable(resolved.labels@),
        r is Err ==> r matches Err(CodecError::UnknownLabel(_))
            || r == Err::<AVG32Scene, CodecError>(CodecError::LabelsNotResolved),
        r matches Ok(sc) ==> compiled_from(resolved, sc)
            && (forall|i: int| 0 <= i < sc.opcodes@.len() ==> (#[trigger] sc.opcodes@[i]).wf()
                == concat_ops(resolved.labels@)[i].wf())
            && seq_compiled(sc.opcodes@),
{
    let ghost ls = resolved.labels@;
    let LabelResolvedScene { header, labels } = resolved;
    // first pass: each block's offset is the byte size of all blocks before
    let mut positions: Vec<(String, u32)> = Vec::new();
    let mut cur: usize = 0;
    let mut j: usize = 0;
    proof {
        assert(ls.subrange(0, 0) =~= Seq::<Label>::empty());
    }
    while j < labels.len()
        invariant
            labels@ == ls,
            j <= ls.len(),
            positions@.len() == j,
            cur == block_start(ls, j as int),
            seq_wire(concat_ops(ls)).len() <= u32::MAX,
            forall|jj: int| 0 <= jj < j ==> (#[trigger] positions@[jj]).0@ == ls[jj].name@
                && positions@[jj].1 == block_start(ls, jj),
        decreases ls.len() - j,
    {
        proof {
            lemma_concat_ops_split(ls, j as int);
            lemma_seq_wire_concat(concat_ops(ls.subrange(0, j as int)),
                concat_ops(ls.subrange(j as int, ls.len() as int)));
            assert(ls.subrange(j as int, ls.len() as int)[0] == ls[j as int]);
            assert(ls.subrange(j as int, ls.len() as int).drop_first()
                =~= ls.subrange(j + 1, ls.len() as int));
            assert(concat_ops(ls.subrange(j as int, ls.len() as int))
                == ls[j as int].opcodes@ + concat_ops(ls.subrange(j + 1, ls.len() as int)));
            lemma_seq_wire_concat(ls[j as int].opcodes@,
                concat_ops(ls.subrange(j + 1, ls.len() as int)));
            assert(ls[j as int].opcodes@.subrange(0, 0) =~= Seq::<Opcode>::empty());
            assert(seq_wire(Seq::<Opcode>::empty()).len() == 0);
        }
        positions.push((labels[j].name.clone(), cur as u32));
        let block = &labels[j];
        let mut t: usize = 0;
        while t < block.opcodes.len()
            invariant
                labels@ == ls,
                j < ls.len(),
                block == &labels[j as int],
                t <= block.opcodes@.len(),
                cur == block_start(ls, j as int)
                    + seq_wire(block.opcodes@.subrange(0, t as int)).len(),
                seq_wire(concat_ops(ls)).len() <= u32::MAX,
                block_start(ls, j as int) + seq_wire(block.opcodes@).len()
                    <= seq_wire(concat_ops(ls)).len(),
            decreases block.opcodes@.len() - t,
        {
            proof {
                assert(block.opcodes@.subrange(0, t + 1)
                    =~= block.opcodes@.subrange(0, t as int).push(block.opcodes@[t as int]));
                lemma_seq_wire_push(block.opcodes@.subrange(0, t as int),
                    block.opcodes@[t as int]);
                crate::codec::lemma_seq_wire_len_bound(block.opcodes@,
                    block.opcodes@.len() as int);
                assert(block.opcodes@.subrange(0, block.opcodes@.len() as int)
                    =~= block.opcodes@);
                assert(seq_wire(block.opcodes@.subrange(0, t + 1)).len()
                    <= seq_wire(block.opcodes@).len());
                assert(seq_wire(block.opcodes@.subrange(0, t + 1)).len()
                    == seq_wire(block.opcodes@.subrange(0, t as int)).len()
                        + block.opcodes@[t as int].wire().len());
            }
            let sz = (&block.opcodes[t]).byte_size();
            cur = cur + sz;
            t = t + 1;
        }
        proof {
            lemma_concat_ops_split(ls, j + 1);
            lemma_concat_ops_split(ls, j as int);
            assert(ls.subrange(j as int, ls.len() as int).drop_first()
                =~= ls.subrange(j + 1, ls.len() as int));
            assert(ls.subrange(j as int, ls.len() as int)[0] == ls[j as int]);
            assert(ls.subrange(j as int, ls.len() as int).len() > 0);
            assert(concat_ops(ls.subrange(j as int, ls.len() as int))
                == ls.subrange(j as int, ls.len() as int)[0].opcodes@
                    + concat_ops(ls.subrange(j as int, ls.len() as int).drop_first()));
            assert(concat_ops(ls.subrange(j as int, ls.len() as int))
                == ls[j as int].opcodes@ + concat_ops(ls.subrange(j + 1, ls.len() as int)));
            assert(ls.subrange(0, j + 1) =~= ls.subrange(0, j as int).push(ls[j as int]));
            lemma_concat_ops_push(ls.subrange(0, j as int), ls[j as int]);
            lemma_seq_wire_concat(concat_ops(ls.subrange(0, j as int)), ls[j as int].opcodes@);
            assert(concat_ops(ls.subrange(0, j + 1)) =~= concat_ops(ls.subrange(0, j as int))
                + ls[j as int].opcodes@);
            assert(block.opcodes@.subrange(0, block.opcodes@.len() as int) =~= block.opcodes@);
        }
        j = j + 1;
    }
    // second pass: rewrite each block's operands and concatenate
    let mut rest = labels;
    let mut out: Vec<Opcode> = Vec::new();
    let ghost mids = concat_ops(ls);
    while rest.len() > 0
        invariant
            rest@ == ls.subrange((ls.len() - rest@.len()) as int, ls.len() as int),
            rest@.len() <= ls.len(),
            mids == concat_ops(ls),
            ls == resolved.labels@,
            positions@.len() == ls.len(),
            forall|jj: int| 0 <= jj < positions@.len() ==> (#[trigger] positions@[jj]).0@
                == ls[jj].name@,
            out@.len() == concat_ops(ls.subrange(0, (ls.len() - rest@.len()) as int)).len(),
            forall|i: int| 0 <= i < out@.len() ==> op_rel(pos_rtab_ok(positions@),
                #[trigger] out@[i], mids[i]),
            forall|i: int| 0 <= i < out@.len() ==> op_tab_compilable(positions@,
                #[trigger] mids[i]),
        decreases rest@.len(),
    {
        let ghost done = (ls.len() - rest@.len()) as int;
        let ghost prerest = rest@;
        let block = rest.remove(0);
        proof {
            assert(prerest[0] == ls.subrange(done, ls.len() as int)[0]);
            assert(ls.subrange(done, ls.len() as int)[0] == ls[done]);
            assert(block == ls[done]);
            assert(rest@ =~= ls.subrange(done + 1, ls.len() as int));
            lemma_concat_ops_split(ls, done);
            lemma_concat_ops_split(ls, done + 1);
            assert(ls.subrange(done, ls.len() as int).drop_first()
                =~= ls.subrange(done + 1, ls.len() as int));
            assert(ls.subrange(done, ls.len() as int).len() > 0);
            assert(concat_ops(ls.subrange(done, ls.len() as int))
                == ls.subrange(done, ls.len() as int)[0].opcodes@
                    + concat_ops(ls.subrange(done, ls.len() as int).drop_first()));
            assert(concat_ops(ls.subrange(done, ls.len() as int))
                == ls[done].opcodes@ + concat_ops(ls.subrange(done + 1, ls.len() as int)));
            assert(ls.subrange(0, done + 1) =~= ls.subrange(0, done).push(ls[done]));
            lemma_concat_ops_push(ls.subrange(0, done), ls[done]);
            assert(concat_ops(ls.subrange(0, done + 1)) =~= concat_ops(ls.subrange(0, done))
                + ls[done].opcodes@);
        }
        let ghost base = out@.len() as int;
        let rewritten = match convert_label_to_byte_positions(block.opcodes, &positions) {
            Ok(rw) => rw,
            Err(e) => {
                proof {
                    let k = choose|k: int| 0 <= k < block.opcodes@.len()
                        && !op_tab_compilable(positions@, #[trigger] block.opcodes@[k]);
                    assert(concat_ops(ls.subrange(done, ls.len() as int))[k]
                        == ls[done].opcodes@[k]);
                    assert(mids[base + k] == ls[done].opcodes@[k]);
                    assert(!op_tab_compilable(positions@, concat_ops(ls)[base + k]));
                    lemma_tab_compilable_bridge(positions@, ls, concat_ops(ls)[base + k]);
                    assert(!op_compilable(ls, concat_ops(ls)[base + k]));
                    assert(!scene_compilable(resolved.labels@));
                }
                return Err(e);
            },
        };
        let mut add = rewritten;
        let ghost addseq = add@;
        proof {
            assert(mids == concat_ops(ls.subrange(0, done))
                + concat_ops(ls.subrange(done, ls.len() as int)));
            assert forall|k: int| 0 <= k < addseq.len() implies #[trigger] mids[base + k]
                == ls[done].opcodes@[k] by {
                assert(concat_ops(ls.subrange(done, ls.len() as int))[k]
                    == ls[done].opcodes@[k]);
            }
            assert(addseq.subrange(0, addseq.len() as int) =~= addseq);
        }
        while add.len() > 0
            invariant
                add@ == addseq.subrange((addseq.len() - add@.len()) as int, addseq.len() as int),
                add@.len() <= addseq.len(),
                out@.len() == base + (addseq.len() - add@.len()),
                forall|i: int| 0 <= i < out@.len() ==> op_rel(pos_rtab_ok(positions@),
                    #[trigger] out@[i], mids[i]),
                base + addseq.len() <= mids.len(),
                forall|k: int| 0 <= k < addseq.len() ==> op_rel(pos_rtab_ok(positions@),
                    #[trigger] addseq[k], mids[base + k]),
            decreases add@.len(),
        {
            let ghost donea = (addseq.len() - add@.len()) as int;
            let op = add.remove(0);
            proof {
                assert(op == addseq[donea]);
            }
            out.push(op);
            proof {
                assert(add@ =~= addseq.subrange((addseq.len() - add@.len()) as int,
                    addseq.len() as int));
            }
        }
        proof {
            assert(out@.len() == base + addseq.len());
            assert(out@.len() == concat_ops(ls.subrange(0, done + 1)).len());
            assert(rest@ =~= ls.subrange((ls.len() - rest@.len()) as int, ls.len() as int));
            assert forall|i: int| 0 <= i < out@.len()
                implies op_tab_compilable(positions@, #[trigger] mids[i]) by {
                if i >= base {
                    assert(mids[i] == ls[done].opcodes@[i - base]);
                    assert(op_tab_compilable(positions@, ls[done].opcodes@[i - base]));
                }
            }
        }
    }
    let sc = AVG32Scene { header, opcodes: out };
    proof {
        assert(ls.subrange(0, ls.len() as int) =~= ls);
        assert forall|i: int| 0 <= i < concat_ops(ls).len()
            implies op_compilable(ls, #[trigger] concat_ops(ls)[i]) by {
            assert(op_tab_compilable(positions@, mids[i]));
            lemma_tab_compilable_bridge(positions@, ls, concat_ops(ls)[i]);
        }
        assert(scene_compilable(resolved.labels@));
    }
    proof {
        assert(ls.subrange(0, ls.len() as int) =~= ls);
        assert forall|i: int| 0 <= i < sc.opcodes@.len() implies op_rel(pos_pair_ok(ls),
            #[trigger] sc.opcodes@[i], mids[i]) by {
            assert(op_rel(pos_rtab_ok(positions@), sc.opcodes@[i], mids[i]));
            assert forall|p: Pos, q: Pos| #[trigger] pos_rtab_ok(positions@)(p, q)
                implies pos_pair_ok(ls)(p, q) by {
                let jj = choose|jj: int| 0 <= jj < positions@.len()
                    && (#[trigger] positions@[jj]).0@ == q->Label_0@
                    && positions@[jj].1 == p->Offset_0;
                assert(ls[jj].name@ == q->Label_0@ && block_start(ls, jj) == p->Offset_0);
            }
            lemma_op_rel_mono(pos_rtab_ok(positions@), pos_pair_ok(ls), sc.opcodes@[i], mids[i]);
        }
        assert forall|i: int| 0 <= i < sc.opcodes@.len() implies (#[trigger] sc.opcodes@[i]).wf()
            == mids[i].wf() && sc.opcodes@[i].compiled() by {
            lemma_op_rel_size(pos_pair_ok(ls), sc.opcodes@[i], mids[i]);
            lemma_op_compiled(pos_pair_ok(ls), sc.opcodes@[i], mids[i]);
        }
    }
    Ok(sc)
}

/// The byte side of a rewritten pair has no symbolic operand left.
proof fn lemma_op_compiled(rel: spec_fn(Pos, Pos) -> bool, a: Opcode, b: Opcode)
    requires
        op_rel(rel, a, b),
        forall|p: Pos, q: Pos| #[trigger] rel(p, q) ==> p is Offset,
    ensures
        a.compiled(),
{
    match a {
        Opcode::TableCall(v, ps) => {
            assert(forall|k: int| 0 <= k < ps@.len() ==> (#[trigger] ps@[k]) is Offset);
        },
        Opcode::TableJump(v, ps) => {
            assert(forall|k: int| 0 <= k < ps@.len() ==> (#[trigger] ps@[k]) is Offset);
        },
        _ => {},
    }
}

} // verus!
