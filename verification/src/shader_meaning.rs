//! What the generated transport code does when it runs.
//!
//! A small language with a spelling and a meaning: tests on the step's parity and the link
//! mask, loads and stores between a cell's populations and the direction buffers. The
//! generated text is shown to spell programs of it, and running those programs on the
//! populations of the streaming solver to load and store what the solver does.
use vstd::prelude::*;
use crate::boundary::mask_bit;
use crate::lattice::{
    load_addr, store_addr, velocity, Addr, VelocitySet,
};
use crate::grid::{cell_at, linear_index, wrapped_neighbour, UVec3};
use crate::reference::{
    lemma_index_in_range, partner, store_index, stores_never_meet, ReferenceLbm,
};
use crate::shaders::{
    index_name, load_blocks, load_half, load_line, pair_open, put, store_blocks, store_half,
    store_line, transport_text, LOAD_OPEN, STORE_OPEN, TRANSPORT_NOTE,
};
use crate::text::decimal;

verus! {

/// A number that the code computes.
pub enum Word {
    Mask,
    Number(nat),
    Shifted(Box<Word>, Box<Word>),
    Common(Box<Word>, Box<Word>),
}

impl Word {
    pub open spec fn spelled(self) -> Seq<char>
        decreases self,
    {
        match self {
            Word::Mask => "mask"@,
            Word::Number(n) => decimal(n as int) + "u"@,
            Word::Shifted(a, b) => "("@ + a.spelled() + " >> "@ + b.spelled() + ")"@,
            Word::Common(a, b) => "("@ + a.spelled() + " & "@ + b.spelled() + ")"@,
        }
    }

    pub open spec fn value(self, mask: u32) -> u32
        decreases self,
    {
        match self {
            Word::Mask => mask,
            Word::Number(n) => n as u32,
            Word::Shifted(a, b) => a.value(mask) >> b.value(mask),
            Word::Common(a, b) => a.value(mask) & b.value(mask),
        }
    }
}

/// A question that the code asks.
pub enum Test {
    Odd,
    Unequal(Word, Word),
    Equal(Word, Word),
    Differ(Box<Test>, Box<Test>),
    Agree(Box<Test>, Box<Test>),
    Grouped(Box<Test>),
}

impl Test {
    pub open spec fn spelled(self) -> Seq<char>
        decreases self,
    {
        match self {
            Test::Odd => "odd"@,
            Test::Unequal(a, b) => "("@ + a.spelled() + " != "@ + b.spelled() + ")"@,
            Test::Equal(a, b) => "("@ + a.spelled() + " == "@ + b.spelled() + ")"@,
            Test::Differ(a, b) => "("@ + a.spelled() + " != "@ + b.spelled() + ")"@,
            Test::Agree(a, b) => "("@ + a.spelled() + " == "@ + b.spelled() + ")"@,
            Test::Grouped(a) => "("@ + a.spelled() + ")"@,
        }
    }

    pub open spec fn holds(self, odd: bool, mask: u32) -> bool
        decreases self,
    {
        match self {
            Test::Odd => odd,
            Test::Unequal(a, b) => a.value(mask) != b.value(mask),
            Test::Equal(a, b) => a.value(mask) == b.value(mask),
            Test::Differ(a, b) => a.holds(odd, mask) != b.holds(odd, mask),
            Test::Agree(a, b) => a.holds(odd, mask) == b.holds(odd, mask),
            Test::Grouped(a) => a.holds(odd, mask),
        }
    }
}

/// Which cell a buffer is indexed by: the cell itself, or the neighbour looked up last.
pub enum Place {
    Cell,
    Neighbour,
}

impl Place {
    pub open spec fn spelled(self) -> Seq<char> {
        match self {
            Place::Cell => "cell"@,
            Place::Neighbour => "nb"@,
        }
    }
}

/// A population moved between a cell's own list and the buffer of a direction.
pub enum Move {
    Load { slot: nat, dir: nat, place: Place },
    Store { slot: nat, dir: nat, place: Place },
}

impl Move {
    pub open spec fn spelled(self) -> Seq<char> {
        match self {
            Move::Load { slot, dir, place } => "(*g)["@ + decimal(slot as int) + "] = ddf_get_"@
                + decimal(dir as int) + "("@ + place.spelled() + ");"@,
            Move::Store { slot, dir, place } => "ddf_put_"@ + decimal(dir as int) + "("@
                + place.spelled() + ", (*g)["@ + decimal(slot as int) + "]);"@,
        }
    }
}

/// The moves of one branch, each with a blank behind it.
pub open spec fn moves_spelled(moves: Seq<Move>) -> Seq<char>
    decreases moves.len(),
{
    if moves.len() == 0 {
        Seq::empty()
    } else {
        moves_spelled(moves.drop_last()) + (moves.last().spelled() + " "@)
    }
}

/// One line: moves to make where a test holds, and others where it does not.
pub struct Line {
    pub test: Test,
    pub yes: Seq<Move>,
    pub no: Seq<Move>,
}

impl Line {
    pub open spec fn spelled(self) -> Seq<char> {
        "        if "@ + self.test.spelled() + " { "@ + moves_spelled(self.yes) + "} else { "@
            + moves_spelled(self.no) + "}\n"@
    }

    pub open spec fn taken(self, odd: bool, mask: u32) -> Seq<Move> {
        if self.test.holds(odd, mask) {
            self.yes
        } else {
            self.no
        }
    }
}

/// The lines of one pair of directions, under one neighbour lookup.
pub struct Block {
    pub first: nat,
    pub towards: nat,
    pub lines: Seq<Line>,
}

pub open spec fn lines_spelled(lines: Seq<Line>) -> Seq<char>
    decreases lines.len(),
{
    if lines.len() == 0 {
        Seq::empty()
    } else {
        lines_spelled(lines.drop_last()) + lines.last().spelled()
    }
}

impl Block {
    pub open spec fn spelled(self) -> Seq<char> {
        "    { // pair ("@ + decimal(self.first as int) + ", "@ + decimal((self.first + 1) as int)
            + ")\n        let nb = neighbour_index(c, "@ + decimal(self.towards as int) + "u);\n"@
            + lines_spelled(self.lines) + "    }\n"@
    }
}

pub open spec fn program_spelled(program: Seq<Block>) -> Seq<char>
    decreases program.len(),
{
    if program.len() == 0 {
        Seq::empty()
    } else {
        program_spelled(program.drop_last()) + program.last().spelled()
    }
}

/// What the code works on: a cell's own populations, and all direction buffers one after
/// the other.
pub struct Machine {
    pub g: Seq<u32>,
    pub memory: Seq<u32>,
}

/// Where and when the code runs: the grid, the cell, the parity of the step, and the
/// cell's link mask.
pub struct Run {
    pub padded: UVec3,
    pub cell: int,
    pub odd: bool,
    pub mask: u32,
}

impl Run {
    /// The index of the neighbour in a direction.
    pub open spec fn neighbour(self, dir: int) -> int {
        linear_index(
            self.padded,
            wrapped_neighbour(self.padded, cell_at(self.padded, self.cell), velocity(dir)),
        )
    }

    /// The element of the buffers that a move touches.
    pub open spec fn element(self, dir: int, place: Place, nb: int) -> int {
        dir * self.padded.volume() + match place {
            Place::Cell => self.cell,
            Place::Neighbour => nb,
        }
    }

    pub open spec fn made(self, m: Machine, what: Move, nb: int) -> Machine {
        match what {
            Move::Load { slot, dir, place } => Machine {
                g: m.g.update(slot as int, m.memory[self.element(dir as int, place, nb)]),
                memory: m.memory,
            },
            Move::Store { slot, dir, place } => Machine {
                g: m.g,
                memory: m.memory.update(self.element(dir as int, place, nb), m.g[slot as int]),
            },
        }
    }

    pub open spec fn all_made(self, m: Machine, moves: Seq<Move>, nb: int) -> Machine
        decreases moves.len(),
    {
        if moves.len() == 0 {
            m
        } else {
            self.made(self.all_made(m, moves.drop_last(), nb), moves.last(), nb)
        }
    }

    pub open spec fn after_lines(self, m: Machine, lines: Seq<Line>, nb: int) -> Machine
        decreases lines.len(),
    {
        if lines.len() == 0 {
            m
        } else {
            self.all_made(
                self.after_lines(m, lines.drop_last(), nb),
                lines.last().taken(self.odd, self.mask),
                nb,
            )
        }
    }

    pub open spec fn after(self, m: Machine, program: Seq<Block>) -> Machine
        decreases program.len(),
    {
        if program.len() == 0 {
            m
        } else {
            self.after_lines(
                self.after(m, program.drop_last()),
                program.last().lines,
                self.neighbour(program.last().towards as int),
            )
        }
    }
}

/// Where an address is indexed.
spec fn place_of(a: Addr) -> Place {
    if a.neighbour_dir is Some {
        Place::Neighbour
    } else {
        Place::Cell
    }
}

spec fn bit_word(d: nat) -> Word {
    Word::Common(
        Box::new(Word::Shifted(Box::new(Word::Mask), Box::new(Word::Number(d)))),
        Box::new(Word::Number(1)),
    )
}

spec fn load_test(d: nat) -> Test {
    Test::Differ(
        Box::new(Test::Odd),
        Box::new(Test::Unequal(bit_word(d), Word::Number(0))),
    )
}

spec fn load_of(d: nat, odd: bool) -> Move {
    Move::Load {
        slot: d,
        dir: load_addr(d as int, odd).dir as nat,
        place: place_of(load_addr(d as int, odd)),
    }
}

spec fn store_of(d: nat, odd: bool) -> Move {
    Move::Store {
        slot: d,
        dir: store_addr(d as int, odd).dir as nat,
        place: place_of(store_addr(d as int, odd)),
    }
}

spec fn line_of_load(d: nat) -> Line {
    Line { test: load_test(d), yes: seq![load_of(d, true)], no: seq![load_of(d, false)] }
}

spec fn line_of_store(d: nat) -> Line {
    Line {
        test: Test::Grouped(Box::new(Test::Odd)),
        yes: seq![store_of(d, true), store_of(d + 1, true)],
        no: seq![store_of(d, false), store_of(d + 1, false)],
    }
}

spec fn load_program(n: nat) -> Seq<Block>
    decreases n,
{
    if n <= 1 {
        Seq::empty()
    } else {
        load_program((n - 2) as nat).push(
            Block {
                first: (n - 2) as nat,
                towards: (n - 1) as nat,
                lines: seq![line_of_load((n - 2) as nat), line_of_load((n - 1) as nat)],
            },
        )
    }
}

spec fn store_program(n: nat) -> Seq<Block>
    decreases n,
{
    if n <= 1 {
        Seq::empty()
    } else {
        store_program((n - 2) as nat).push(
            Block {
                first: (n - 2) as nat,
                towards: (n - 1) as nat,
                lines: seq![line_of_store((n - 2) as nat)],
            },
        )
    }
}

/// One move, with the blank behind it.
proof fn lemma_one_move(m: Move)
    ensures
        moves_spelled(seq![m]) == m.spelled() + " "@,
{
    reveal_with_fuel(moves_spelled, 2);
    assert(seq![m].drop_last() =~= Seq::<Move>::empty());
    assert(moves_spelled(seq![m]) =~= m.spelled() + " "@);
}

proof fn lemma_two_moves(a: Move, b: Move)
    ensures
        moves_spelled(seq![a, b]) == (a.spelled() + " "@) + (b.spelled() + " "@),
{
    lemma_one_move(a);
    assert(seq![a, b].drop_last() =~= seq![a]);
}

/// The load of one branch is spelled as it is generated.
proof fn lemma_load_half(d: nat, odd: bool)
    ensures
        load_half(d as int, odd) == load_of(d, odd).spelled() + " "@ + "}"@,
{
    reveal(load_half);
    let a = load_addr(d as int, odd);
    reveal_strlit("); }");
    reveal_strlit(");");
    reveal_strlit(" ");
    reveal_strlit("}");
    assert("); }"@ =~= ");"@ + " "@ + "}"@);
    let head = "(*g)["@ + decimal(d as int) + "] = ddf_get_"@ + decimal(a.dir as int) + "("@
        + index_name(a);
    assert(place_of(a).spelled() == index_name(a));
    assert(load_of(d, odd).spelled() == head + ");"@);
    assert(load_half(d as int, odd) == head + "); }"@);
    assert(head + (");"@ + " "@ + "}"@) =~= head + ");"@ + " "@ + "}"@);
}

/// What stands around a text moves into it.
proof fn lemma_frame(
    before: Seq<char>,
    a: Seq<char>,
    n: Seq<char>,
    b: Seq<char>,
    x: Seq<char>,
    y: Seq<char>,
    z: Seq<char>,
)
    ensures
        before + (a + n + b) + x + y + z == (before + a) + n + (b + x + y + z),
{
    assert(before + (a + n + b) + x + y + z =~= (before + a) + n + (b + x + y + z));
}

proof fn lemma_inner(a: Seq<char>, n: Seq<char>, b: Seq<char>, x: Seq<char>)
    ensures
        a + (n + b) + x == a + n + (b + x),
{
    assert(a + (n + b) + x =~= a + n + (b + x));
}

proof fn lemma_outer(
    head: Seq<char>,
    before: Seq<char>,
    a: Seq<char>,
    n: Seq<char>,
    b: Seq<char>,
    x: Seq<char>,
    y: Seq<char>,
)
    ensures
        head + (before + (a + n + b) + x) + y == (head + (before + a)) + n + (b + x + y),
{
    assert(head + (before + (a + n + b) + x) + y =~= (head + (before + a)) + n + (b + x + y));
}

proof fn lemma_test_pieces()
    ensures
        "("@ + "mask"@ + " >> "@ == "(mask >> "@,
        "u"@ + ")"@ == "u)"@,
        "("@ + "(mask >> "@ == "((mask >> "@,
        "u)"@ + " & "@ + (seq!['1'] + "u"@) + ")"@ == "u) & 1u)"@,
        "("@ + "((mask >> "@ == "(((mask >> "@,
        "u) & 1u)"@ + " != "@ + (seq!['0'] + "u"@) + ")"@ == "u) & 1u) != 0u)"@,
{
    reveal_strlit("(");
    reveal_strlit(")");
    reveal_strlit("u");
    reveal_strlit("mask");
    reveal_strlit(" >> ");
    reveal_strlit("(mask >> ");
    reveal_strlit("u)");
    reveal_strlit("((mask >> ");
    reveal_strlit(" & ");
    reveal_strlit("u) & 1u)");
    reveal_strlit("(((mask >> ");
    reveal_strlit(" != ");
    reveal_strlit("u) & 1u) != 0u)");
    assert("("@ + "mask"@ + " >> "@ =~= "(mask >> "@);
    assert("u"@ + ")"@ =~= "u)"@);
    assert("("@ + "(mask >> "@ =~= "((mask >> "@);
    assert("u)"@ + " & "@ + (seq!['1'] + "u"@) + ")"@ =~= "u) & 1u)"@);
    assert("("@ + "((mask >> "@ =~= "(((mask >> "@);
    assert("u) & 1u)"@ + " != "@ + (seq!['0'] + "u"@) + ")"@ =~= "u) & 1u) != 0u)"@);
}

proof fn lemma_test_ends()
    ensures
        "        if "@ + ("("@ + "odd"@ + " != "@ + "(((mask >> "@)
            == "        if (odd != (((mask >> "@,
        "u) & 1u) != 0u)"@ + ")"@ + " { "@ == "u) & 1u) != 0u)) { "@,
{
    reveal_strlit("        if ");
    reveal_strlit("(");
    reveal_strlit("odd");
    reveal_strlit(" != ");
    reveal_strlit("(((mask >> ");
    reveal_strlit("        if (odd != (((mask >> ");
    reveal_strlit("u) & 1u) != 0u)");
    reveal_strlit(")");
    reveal_strlit(" { ");
    reveal_strlit("u) & 1u) != 0u)) { ");
    assert("        if "@ + ("("@ + "odd"@ + " != "@ + "(((mask >> "@)
        =~= "        if (odd != (((mask >> "@);
    assert("u) & 1u) != 0u)"@ + ")"@ + " { "@ =~= "u) & 1u) != 0u)) { "@);
}

/// The test of a load is spelled as it is generated.
proof fn lemma_load_test(d: nat)
    ensures
        "        if (odd != (((mask >> "@ + decimal(d as int) + "u) & 1u) != 0u)) { "@
            == "        if "@ + load_test(d).spelled() + " { "@,
{
    reveal_with_fuel(Word::spelled, 4);
    reveal_with_fuel(Test::spelled, 4);
    reveal_with_fuel(decimal, 2);
    let n = decimal(d as int);
    assert(decimal(1) =~= seq!['1']);
    assert(decimal(0) =~= seq!['0']);
    let shifted = "("@ + "mask"@ + " >> "@ + (n + "u"@) + ")"@;
    let common = "("@ + shifted + " & "@ + (seq!['1'] + "u"@) + ")"@;
    let unequal = "("@ + common + " != "@ + (seq!['0'] + "u"@) + ")"@;
    let differ = "("@ + "odd"@ + " != "@ + unequal + ")"@;
    assert(load_test(d).spelled() == differ);
    lemma_test_pieces();
    lemma_test_ends();
    lemma_inner("(mask >> "@, n, "u"@, ")"@);
    assert(shifted == "(mask >> "@ + n + "u)"@);
    lemma_frame("("@, "(mask >> "@, n, "u)"@, " & "@, seq!['1'] + "u"@, ")"@);
    assert(common == "((mask >> "@ + n + "u) & 1u)"@);
    lemma_frame("("@, "((mask >> "@, n, "u) & 1u)"@, " != "@, seq!['0'] + "u"@, ")"@);
    assert(unequal == "(((mask >> "@ + n + "u) & 1u) != 0u)"@);
    let odd = "("@ + "odd"@ + " != "@;
    lemma_outer("        if "@, odd, "(((mask >> "@, n, "u) & 1u) != 0u)"@, ")"@, " { "@);
}

/// A line of loads is spelled as it is generated.
proof fn lemma_load_line(d: nat)
    ensures
        load_line(d as int) == line_of_load(d).spelled(),
{
    reveal(load_line);
    lemma_load_test(d);
    lemma_load_half(d, true);
    lemma_load_half(d, false);
    lemma_one_move(load_of(d, true));
    lemma_one_move(load_of(d, false));
    reveal_strlit("}");
    reveal_strlit(" else { ");
    reveal_strlit("} else { ");
    reveal_strlit("\n");
    reveal_strlit("}\n");
    let head = "        if "@ + load_test(d).spelled() + " { "@;
    let yes = load_of(d, true).spelled() + " "@;
    let no = load_of(d, false).spelled() + " "@;
    assert("} else { "@ =~= "}"@ + " else { "@);
    assert("}\n"@ =~= "}"@ + "\n"@);
    assert(load_line(d as int) == head + (yes + "}"@) + " else { "@ + (no + "}"@) + "\n"@);
    assert(head + (yes + "}"@) + " else { "@ =~= head + yes + ("}"@ + " else { "@));
    let front = head + yes + "} else { "@;
    assert(front + (no + "}"@) + "\n"@ =~= front + no + ("}"@ + "\n"@));
}

proof fn lemma_put(d: nat, odd: bool)
    ensures
        put(
            store_addr(d as int, odd).dir as int,
            index_name(store_addr(d as int, odd)),
            d as int,
        ) == store_of(d, odd).spelled() + " "@,
{
    reveal(put);
    reveal_strlit("]); ");
    reveal_strlit("]);");
    reveal_strlit(" ");
    let a = store_addr(d as int, odd);
    assert(place_of(a).spelled() == index_name(a));
    assert("]); "@ =~= "]);"@ + " "@);
    let head = "ddf_put_"@ + decimal(a.dir as int) + "("@ + index_name(a) + ", (*g)["@ + decimal(
        d as int,
    );
    assert(store_of(d, odd).spelled() == head + "]);"@);
    assert(head + ("]);"@ + " "@) =~= head + "]);"@ + " "@);
}

/// A line of stores is spelled as it is generated.
proof fn lemma_store_line(d: nat)
    requires
        d % 2 == 1,
    ensures
        store_line(d as int) == line_of_store(d).spelled(),
{
    reveal(store_line);
    reveal(store_half);
    reveal_with_fuel(Test::spelled, 3);
    lemma_put(d, true);
    lemma_put(d, false);
    lemma_put(d + 1, true);
    lemma_put(d + 1, false);
    lemma_two_moves(store_of(d, true), store_of(d + 1, true));
    lemma_two_moves(store_of(d, false), store_of(d + 1, false));
    reveal_strlit("        if (odd) { ");
    reveal_strlit("        if ");
    reveal_strlit("(");
    reveal_strlit("odd");
    reveal_strlit(")");
    reveal_strlit(" { ");
    reveal_strlit("}");
    reveal_strlit(" else { ");
    reveal_strlit("} else { ");
    reveal_strlit("\n");
    reveal_strlit("}\n");
    assert("        if (odd) { "@ =~= "        if "@ + ("("@ + "odd"@ + ")"@) + " { "@);
    assert("} else { "@ =~= "}"@ + " else { "@);
    assert("}\n"@ =~= "}"@ + "\n"@);
    let head = "        if (odd) { "@;
    let yes = moves_spelled(seq![store_of(d, true), store_of(d + 1, true)]);
    let no = moves_spelled(seq![store_of(d, false), store_of(d + 1, false)]);
    assert(store_half(d as int, true) == yes + "}"@);
    assert(store_half(d as int, false) == no + "}"@);
    assert(head + (yes + "}"@) + " else { "@ =~= head + yes + ("}"@ + " else { "@));
    let front = head + yes + "} else { "@;
    assert(front + (no + "}"@) + "\n"@ =~= front + no + ("}"@ + "\n"@));
}

proof fn lemma_joined_block(
    front: Seq<char>,
    open: Seq<char>,
    a: Seq<char>,
    b: Seq<char>,
    end: Seq<char>,
)
    ensures
        front + open + a + b + end == front + (open + (a + b) + end),
{
    assert(front + open + a + b + end =~= front + (open + (a + b) + end));
}

/// The blocks of the loads are spelled as they are generated.
proof fn lemma_load_blocks(n: nat)
    requires
        n % 2 == 1,
    ensures
        load_blocks(n as int) == program_spelled(load_program(n)),
    decreases n,
{
    if n > 1 {
        let m = (n - 2) as nat;
        lemma_load_blocks(m);
        lemma_load_line(m);
        lemma_load_line(m + 1);
        let program = load_program(n);
        let block = program.last();
        assert(program.drop_last() =~= load_program(m));
        reveal(pair_open);
        reveal_with_fuel(lines_spelled, 3);
        let a = line_of_load(m);
        let b = line_of_load(m + 1);
        assert(seq![a, b].drop_last() =~= seq![a]);
        assert(seq![a].drop_last() =~= Seq::<Line>::empty());
        assert(lines_spelled(seq![a]) =~= a.spelled());
        let open = pair_open(m as int, (m + 1) as int);
        assert(lines_spelled(seq![a, b]) == a.spelled() + b.spelled());
        assert(block.spelled() == open + (a.spelled() + b.spelled()) + "    }\n"@);
        lemma_joined_block(load_blocks(m as int), open, a.spelled(), b.spelled(), "    }\n"@);
    } else {
        assert(load_blocks(n as int) =~= program_spelled(load_program(n)));
    }
}

/// The blocks of the stores are spelled as they are generated.
proof fn lemma_store_blocks(n: nat)
    requires
        n % 2 == 1,
    ensures
        store_blocks(n as int) == program_spelled(store_program(n)),
    decreases n,
{
    if n > 1 {
        let m = (n - 2) as nat;
        lemma_store_blocks(m);
        lemma_store_line(m);
        let program = store_program(n);
        let block = program.last();
        assert(program.drop_last() =~= store_program(m));
        reveal(pair_open);
        reveal_with_fuel(lines_spelled, 2);
        let a = line_of_store(m);
        assert(seq![a].drop_last() =~= Seq::<Line>::empty());
        assert(lines_spelled(seq![a]) =~= a.spelled());
        let open = pair_open(m as int, (m + 1) as int);
        assert(block.spelled() == open + a.spelled() + "    }\n"@);
        let front = store_blocks(m as int);
        assert(front + open + a.spelled() + "    }\n"@ =~= front + (open + a.spelled()
            + "    }\n"@));
    } else {
        assert(store_blocks(n as int) =~= program_spelled(store_program(n)));
    }
}

/// The test of a load tells whether the parity it loads with is odd: the parity of the
/// step, flipped where the link ends on a solid cell.
proof fn lemma_load_test_holds(d: nat, odd: bool, mask: u32)
    requires
        d < 32,
    ensures
        load_test(d).holds(odd, mask) <==> (odd != mask_bit(mask, d as int)),
{
    reveal_with_fuel(Word::value, 4);
    reveal_with_fuel(Test::holds, 4);
    let x = mask >> (d as u32);
    assert(x & 1 == 0 || x & 1 == 1) by (bit_vector);
}

/// A load reads, on every step and with every link mask, where its direction is loaded
/// from: from the address of the step's parity where the link is open, and of the other
/// parity where it ends on a solid cell.
pub proof fn a_load_flips_its_parity_at_a_wall(d: nat, odd: bool, mask: u32)
    requires
        d < 32,
    ensures
        exists|line: Line| #[trigger]
            line.spelled() == load_line(d as int) && line.taken(odd, mask) == seq![
                Move::Load {
                    slot: d,
                    dir: load_addr(d as int, odd != mask_bit(mask, d as int)).dir as nat,
                    place: if load_addr(d as int, odd).neighbour_dir is Some {
                        Place::Neighbour
                    } else {
                        Place::Cell
                    },
                },
            ],
{
    lemma_load_line(d);
    lemma_load_test_holds(d, odd, mask);
    assert(line_of_load(d).spelled() == load_line(d as int));
}

/// What a run works on for a cell of the solver.
pub open spec fn run_of(lbm: &ReferenceLbm, cell: int, odd: bool) -> Run {
    Run {
        padded: lbm.domain.padded,
        cell,
        odd,
        mask: lbm.domain.link_mask@[cell],
    }
}

proof fn lemma_element(lbm: &ReferenceLbm, cell: int, a: Addr, nb: int, odd: bool)
    requires
        lbm.wf(),
    ensures
        run_of(lbm, cell, odd).element(a.dir as int, place_of(a), nb) == lbm.addressing().resolve(
            a,
            cell,
            nb,
        ),
{
    let n = lbm.domain.padded.volume();
    let q = lbm.cfg.set.count();
    assert(0 <= n <= n * q) by (nonlinear_arith)
        requires
            n >= 0,
            q >= 1,
    ;
    assert(lbm.addressing().cells == n);
}

proof fn lemma_loads_run(lbm: &ReferenceLbm, cell: int, m: Machine, n: nat)
    requires
        lbm.wf(),
        0 <= cell < lbm.domain.padded.volume(),
        n % 2 == 1,
        n <= lbm.cfg.set.count(),
        m.g.len() == lbm.cfg.set.count(),
        m.memory == lbm.populations(),
    ensures
        ({
            let r = run_of(lbm, cell, lbm.odd()).after(m, load_program(n));
            &&& r.memory == m.memory
            &&& r.g.len() == m.g.len()
            &&& forall|d: int| 1 <= d < n ==> #[trigger] r.g[d] == lbm.loaded(cell, d)
            &&& forall|d: int| d == 0 || n <= d < r.g.len() ==> #[trigger] r.g[d] == m.g[d]
        }),
    decreases n,
{
    let run = run_of(lbm, cell, lbm.odd());
    if n > 1 {
        let k = (n - 2) as nat;
        lemma_loads_run(lbm, cell, m, k);
        let program = load_program(n);
        assert(program.drop_last() =~= load_program(k));
        let before = run.after(m, load_program(k));
        let j = (k + 1) as int;
        let nb = run.neighbour(j);
        let a = line_of_load(k);
        let b = line_of_load(k + 1);
        let mask = run.mask;
        lemma_load_test_holds(k, run.odd, mask);
        lemma_load_test_holds(k + 1, run.odd, mask);
        let pa = run.odd != mask_bit(mask, k as int);
        let pb = run.odd != mask_bit(mask, j);
        assert(a.taken(run.odd, mask) == seq![load_of(k, pa)]);
        assert(b.taken(run.odd, mask) == seq![load_of(k + 1, pb)]);
        reveal_with_fuel(Run::after_lines, 3);
        reveal_with_fuel(Run::all_made, 2);
        assert(seq![a, b].drop_last() =~= seq![a]);
        assert(seq![a].drop_last() =~= Seq::<Line>::empty());
        assert(seq![load_of(k, pa)].drop_last() =~= Seq::<Move>::empty());
        assert(seq![load_of(k + 1, pb)].drop_last() =~= Seq::<Move>::empty());
        let one = run.made(before, load_of(k, pa), nb);
        let two = run.made(one, load_of(k + 1, pb), nb);
        assert(run.after(m, program) == two);
        lemma_element(lbm, cell, load_addr(k as int, pa), nb, lbm.odd());
        lemma_element(lbm, cell, load_addr(j, pb), nb, lbm.odd());
        assert(partner(lbm.domain.padded, cell, k as int) == nb);
        assert(partner(lbm.domain.padded, cell, j) == nb);
        assert(one.g[k as int] == lbm.loaded(cell, k as int));
        assert(two.g[j] == lbm.loaded(cell, j));
    }
}

proof fn lemma_stores_run(lbm: &ReferenceLbm, cell: int, odd: bool, m: Machine, n: nat)
    requires
        lbm.wf(),
        0 <= cell < lbm.domain.padded.volume(),
        n % 2 == 1,
        n <= lbm.cfg.set.count(),
        m.g.len() == lbm.cfg.set.count(),
        m.memory.len() == lbm.populations().len(),
    ensures
        ({
            let r = run_of(lbm, cell, odd).after(m, store_program(n));
            &&& r.g == m.g
            &&& r.memory.len() == m.memory.len()
            &&& forall|d: int|
                1 <= d < n ==> r.memory[#[trigger] store_index(
                    lbm.addressing(),
                    lbm.domain.padded,
                    cell,
                    d,
                    odd,
                )] == m.g[d]
            &&& forall|k: int|
                0 <= k < r.memory.len() && (forall|d: int|
                    1 <= d < n ==> k != #[trigger] store_index(
                        lbm.addressing(),
                        lbm.domain.padded,
                        cell,
                        d,
                        odd,
                    )) ==> #[trigger] r.memory[k] == m.memory[k]
        }),
    decreases n,
{
    let run = run_of(lbm, cell, odd);
    let ep = lbm.addressing();
    let padded = lbm.domain.padded;
    let set = lbm.cfg.set;
    if n > 1 {
        let k = (n - 2) as nat;
        lemma_stores_run(lbm, cell, odd, m, k);
        let program = store_program(n);
        assert(program.drop_last() =~= store_program(k));
        let before = run.after(m, store_program(k));
        let j = (k + 1) as int;
        let nb = run.neighbour(j);
        let a = line_of_store(k);
        reveal_with_fuel(Test::holds, 3);
        assert(a.taken(odd, run.mask) == seq![store_of(k, odd), store_of(k + 1, odd)]);
        reveal_with_fuel(Run::after_lines, 2);
        reveal_with_fuel(Run::all_made, 3);
        assert(seq![a].drop_last() =~= Seq::<Line>::empty());
        let both = seq![store_of(k, odd), store_of(k + 1, odd)];
        assert(both.drop_last() =~= seq![store_of(k, odd)]);
        assert(seq![store_of(k, odd)].drop_last() =~= Seq::<Move>::empty());
        let one = run.made(before, store_of(k, odd), nb);
        let two = run.made(one, store_of(k + 1, odd), nb);
        assert(run.after(m, program) == two);
        lemma_element(lbm, cell, store_addr(k as int, odd), nb, odd);
        lemma_element(lbm, cell, store_addr(j, odd), nb, odd);
        assert(partner(padded, cell, k as int) == nb);
        assert(partner(padded, cell, j) == nb);
        let sa = store_index(ep, padded, cell, k as int, odd);
        let sb = store_index(ep, padded, cell, j, odd);
        lemma_index_in_range(ep, padded, set, cell, k as int, odd);
        lemma_index_in_range(ep, padded, set, cell, j, odd);
        assert(two.memory == before.memory.update(sa, m.g[k as int]).update(sb, m.g[j]));
        assert forall|d: int| 1 <= d < n implies two.memory[#[trigger] store_index(
            ep,
            padded,
            cell,
            d,
            odd,
        )] == m.g[d] by {
            lemma_index_in_range(ep, padded, set, cell, d, odd);
            if d != j && store_index(ep, padded, cell, d, odd) == sb {
                stores_never_meet(ep, padded, set, odd, cell, d, cell, j);
            }
            if d != k && store_index(ep, padded, cell, d, odd) == sa {
                stores_never_meet(ep, padded, set, odd, cell, d, cell, k as int);
            }
        }
        assert forall|x: int|
            0 <= x < two.memory.len() && (forall|d: int|
                1 <= d < n ==> x != #[trigger] store_index(ep, padded, cell, d, odd)) implies
            #[trigger] two.memory[x] == m.memory[x] by {
            assert(x != sa && x != sb);
            assert(before.memory[x] == m.memory[x]);
        }
    }
}

/// The two generated functions, with programs between their braces.
pub open spec fn functions_spelled(loads: Seq<Block>, stores: Seq<Block>) -> Seq<char> {
    "fn load_ddf(cell: u32, c: vec3<u32>, odd: bool, mask: u32, g: ptr<function, array<f32, Q_CONST>>) {\n    "@
        + (Move::Load { slot: 0, dir: 0, place: Place::Cell }).spelled() + "\n"@ + program_spelled(
        loads,
    ) + "}\n\n"@
        + "fn store_ddf(cell: u32, c: vec3<u32>, odd: bool, g: ptr<function, array<f32, Q_CONST>>) {\n    "@
        + (Move::Store { slot: 0, dir: 0, place: Place::Cell }).spelled() + "\n"@ + program_spelled(
        stores,
    ) + "}\n"@
}

/// Whether running the loads on the populations of a solver fills a cell's list with what
/// the solver loads for that cell, and changes no buffer.
pub open spec fn loads_like(loads: Seq<Block>, lbm: &ReferenceLbm, cell: int, g: Seq<u32>) -> bool {
    let run = run_of(lbm, cell, lbm.odd());
    let start = run.made(
        Machine { g, memory: lbm.populations() },
        Move::Load { slot: 0, dir: 0, place: Place::Cell },
        cell,
    );
    let end = run.after(start, loads);
    &&& end.memory == lbm.populations()
    &&& end.g.len() == g.len()
    &&& forall|i: int| 0 <= i < g.len() ==> #[trigger] end.g[i] == lbm.loaded(cell, i)
}

/// Whether running the stores on buffers writes a cell's list where the solver stores it
/// on a step of that parity, and nowhere else.
pub open spec fn stores_like(
    stores: Seq<Block>,
    lbm: &ReferenceLbm,
    cell: int,
    odd: bool,
    m: Machine,
) -> bool {
    let run = run_of(lbm, cell, odd);
    let end = run.after(
        run.made(m, Move::Store { slot: 0, dir: 0, place: Place::Cell }, cell),
        stores,
    );
    &&& end.memory.len() == m.memory.len()
    &&& forall|i: int|
        0 <= i < m.g.len() ==> end.memory[#[trigger] store_index(
            lbm.addressing(),
            lbm.domain.padded,
            cell,
            i,
            odd,
        )] == m.g[i]
    &&& forall|k: int|
        0 <= k < m.memory.len() && (forall|i: int|
            0 <= i < m.g.len() ==> k != #[trigger] store_index(
                lbm.addressing(),
                lbm.domain.padded,
                cell,
                i,
                odd,
            )) ==> #[trigger] end.memory[k] == m.memory[k]
}

/// The generated transport code streams as the solver does. Its text spells two programs;
/// for every grid, cell, step and link mask the first loads exactly what the solver loads
/// for the cell, wall links bounced back, and the second stores every population exactly
/// where the solver does.
pub proof fn the_generated_transport_streams_as_the_solver_does(set: VelocitySet)
    ensures
        exists|loads: Seq<Block>, stores: Seq<Block>|
            transport_text(set) == TRANSPORT_NOTE@ + #[trigger] functions_spelled(loads, stores) && (
            forall|lbm: ReferenceLbm, cell: int, g: Seq<u32>|
                lbm.wf() && lbm.cfg.set == set && 0 <= cell < lbm.domain.padded.volume() && g.len()
                    == set.count() ==> #[trigger] loads_like(loads, &lbm, cell, g)) && (forall|
                lbm: ReferenceLbm,
                cell: int,
                odd: bool,
                m: Machine,
            |
                lbm.wf() && lbm.cfg.set == set && 0 <= cell < lbm.domain.padded.volume() && m.g.len()
                    == set.count() && m.memory.len() == lbm.populations().len()
                    ==> #[trigger] stores_like(stores, &lbm, cell, odd, m)),
{
    let q = set.count() as nat;
    let loads = load_program(q);
    let stores = store_program(q);
    lemma_transport_text(set);
    assert forall|lbm: ReferenceLbm, cell: int, g: Seq<u32>|
        lbm.wf() && lbm.cfg.set == set && 0 <= cell < lbm.domain.padded.volume() && g.len()
            == set.count() implies #[trigger] loads_like(loads, &lbm, cell, g) by {
        let run = run_of(&lbm, cell, lbm.odd());
        let start = run.made(
            Machine { g, memory: lbm.populations() },
            Move::Load { slot: 0, dir: 0, place: Place::Cell },
            cell,
        );
        lemma_loads_run(&lbm, cell, start, q);
        lemma_element(&lbm, cell, load_addr(0, lbm.odd()), cell, lbm.odd());
        assert(start.g[0] == lbm.loaded(cell, 0));
    }
    assert forall|lbm: ReferenceLbm, cell: int, odd: bool, m: Machine|
        lbm.wf() && lbm.cfg.set == set && 0 <= cell < lbm.domain.padded.volume() && m.g.len()
            == set.count() && m.memory.len() == lbm.populations().len() implies #[trigger] stores_like(
        stores,
        &lbm,
        cell,
        odd,
        m,
    ) by {
        let run = run_of(&lbm, cell, odd);
        let ep = lbm.addressing();
        let padded = lbm.domain.padded;
        let start = run.made(m, Move::Store { slot: 0, dir: 0, place: Place::Cell }, cell);
        let end = run.after(start, stores);
        lemma_stores_run(&lbm, cell, odd, start, q);
        lemma_element(&lbm, cell, store_addr(0, odd), cell, odd);
        let s0 = store_index(ep, padded, cell, 0, odd);
        lemma_index_in_range(ep, padded, set, cell, 0, odd);
        assert(start.memory == m.memory.update(s0, m.g[0]));
        assert(end.memory[s0] == m.g[0]) by {
            assert forall|d: int| 1 <= d < q implies s0 != #[trigger] store_index(
                ep,
                padded,
                cell,
                d,
                odd,
            ) by {
                if s0 == store_index(ep, padded, cell, d, odd) {
                    stores_never_meet(ep, padded, set, odd, cell, 0, cell, d);
                }
            }
        }
        assert forall|k: int|
            0 <= k < m.memory.len() && (forall|i: int|
                0 <= i < m.g.len() ==> k != #[trigger] store_index(ep, padded, cell, i, odd)) implies
            #[trigger] end.memory[k] == m.memory[k] by {
            assert(k != s0);
        }
    }
    assert(transport_text(set) == TRANSPORT_NOTE@ + functions_spelled(loads, stores));
}

proof fn lemma_openings()
    ensures
        LOAD_OPEN@
            == "fn load_ddf(cell: u32, c: vec3<u32>, odd: bool, mask: u32, g: ptr<function, array<f32, Q_CONST>>) {\n    "@
            + (Move::Load { slot: 0, dir: 0, place: Place::Cell }).spelled() + "\n"@,
        STORE_OPEN@
            == "fn store_ddf(cell: u32, c: vec3<u32>, odd: bool, g: ptr<function, array<f32, Q_CONST>>) {\n    "@
            + (Move::Store { slot: 0, dir: 0, place: Place::Cell }).spelled() + "\n"@,
{
    reveal_with_fuel(decimal, 2);
    assert(decimal(0) =~= seq!['0']);
    reveal_strlit("fn load_ddf(cell: u32, c: vec3<u32>, odd: bool, mask: u32, g: ptr<function, array<f32, Q_CONST>>) {\n    (*g)[0] = ddf_get_0(cell);\n");
    reveal_strlit("fn load_ddf(cell: u32, c: vec3<u32>, odd: bool, mask: u32, g: ptr<function, array<f32, Q_CONST>>) {\n    ");
    reveal_strlit("fn store_ddf(cell: u32, c: vec3<u32>, odd: bool, g: ptr<function, array<f32, Q_CONST>>) {\n    ddf_put_0(cell, (*g)[0]);\n");
    reveal_strlit("fn store_ddf(cell: u32, c: vec3<u32>, odd: bool, g: ptr<function, array<f32, Q_CONST>>) {\n    ");
    reveal_strlit("(*g)[");
    reveal_strlit("] = ddf_get_");
    reveal_strlit("(");
    reveal_strlit("cell");
    reveal_strlit(");");
    reveal_strlit("\n");
    reveal_strlit("ddf_put_");
    reveal_strlit(", (*g)[");
    reveal_strlit("]);");
    let load = (Move::Load { slot: 0, dir: 0, place: Place::Cell }).spelled();
    assert(load =~= "(*g)[0] = ddf_get_0(cell);"@) by {
        reveal_strlit("(*g)[0] = ddf_get_0(cell);");
    }
    let store = (Move::Store { slot: 0, dir: 0, place: Place::Cell }).spelled();
    assert(store =~= "ddf_put_0(cell, (*g)[0]);"@) by {
        reveal_strlit("ddf_put_0(cell, (*g)[0]);");
    }
    assert(LOAD_OPEN@
        =~= "fn load_ddf(cell: u32, c: vec3<u32>, odd: bool, mask: u32, g: ptr<function, array<f32, Q_CONST>>) {\n    "@
        + "(*g)[0] = ddf_get_0(cell);"@ + "\n"@) by {
        reveal_strlit("(*g)[0] = ddf_get_0(cell);");
    }
    assert(STORE_OPEN@
        =~= "fn store_ddf(cell: u32, c: vec3<u32>, odd: bool, g: ptr<function, array<f32, Q_CONST>>) {\n    "@
        + "ddf_put_0(cell, (*g)[0]);"@ + "\n"@) by {
        reveal_strlit("ddf_put_0(cell, (*g)[0]);");
    }
}

proof fn lemma_transport_text(set: VelocitySet)
    ensures
        transport_text(set) == TRANSPORT_NOTE@ + functions_spelled(
            load_program(set.count() as nat),
            store_program(set.count() as nat),
        ),
{
    lemma_openings();
    lemma_load_blocks(set.count() as nat);
    lemma_store_blocks(set.count() as nat);
    lemma_seven(
        TRANSPORT_NOTE@,
        LOAD_OPEN@,
        load_blocks(set.count()),
        "}\n\n"@,
        "fn store_ddf(cell: u32, c: vec3<u32>, odd: bool, g: ptr<function, array<f32, Q_CONST>>) {\n    "@,
        (Move::Store { slot: 0, dir: 0, place: Place::Cell }).spelled(),
        "\n"@,
        store_blocks(set.count()),
        "}\n"@,
    );
}

proof fn lemma_seven(
    a: Seq<char>,
    b: Seq<char>,
    c: Seq<char>,
    d: Seq<char>,
    e: Seq<char>,
    f: Seq<char>,
    g: Seq<char>,
    h: Seq<char>,
    i: Seq<char>,
)
    ensures
        a + b + c + d + (e + f + g) + h + i == a + (b + c + d + e + f + g + h + i),
{
    assert(a + b + c + d + (e + f + g) + h + i =~= a + (b + c + d + e + f + g + h + i));
}

} // verus!
