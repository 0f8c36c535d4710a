//! What the generated accessors do when they run.
//!
//! A small language with a spelling and a meaning: the words that an accessor computes, and
//! what it reads from the direction buffers or writes to them. The generated text of every
//! layout is shown to spell a reader and a writer of it, and the reader to give back what
//! the writer put there.
use vstd::prelude::*;
use crate::flags;
use crate::shaders::{
    accessor, flag_line, flag_text, fp16c_accessors, fp32_accessors, packed_accessors, DdfLayout,
};
use crate::text::decimal;

verus! {

/// How two words are joined.
pub enum Join {
    And,
    Times,
    Right,
    Left,
}

impl Join {
    pub open spec fn spelled(self) -> Seq<char> {
        match self {
            Join::And => " & "@,
            Join::Times => " * "@,
            Join::Right => " >> "@,
            Join::Left => " << "@,
        }
    }

    pub open spec fn value(self, a: u32, b: u32) -> u32 {
        match self {
            Join::And => a & b,
            Join::Times => ((a * b) % 0x1_0000_0000) as u32,
            Join::Right => a >> b,
            Join::Left => a << b,
        }
    }
}

/// What one word is turned into by another view of it.
pub enum Cast {
    /// The bits of a number as a number.
    Number,
    /// The number as its bits.
    Bits,
    /// A short element as a word.
    Wide,
    /// A word as a short element.
    Short,
    /// The storage codec, out of storage and into it.
    Decoded,
    Encoded,
}

impl Cast {
    pub open spec fn spelled(self) -> Seq<char> {
        match self {
            Cast::Number => "bitcast<f32>("@,
            Cast::Bits => "bitcast<u32>("@,
            Cast::Wide => "u32("@,
            Cast::Short => "u16("@,
            Cast::Decoded => "fp16c_to_f32("@,
            Cast::Encoded => "f32_to_fp16c("@,
        }
    }

    pub open spec fn value(self, codec: Codec, x: u32) -> u32 {
        match self {
            Cast::Number => x,
            Cast::Bits => x,
            Cast::Wide => x,
            Cast::Short => (x % 0x1_0000) as u32,
            Cast::Decoded => (codec.decode)(x),
            Cast::Encoded => (codec.encode)(x),
        }
    }
}

/// The storage codec, on bit patterns.
pub struct Codec {
    pub decode: spec_fn(u32) -> u32,
    pub encode: spec_fn(u32) -> u32,
}

/// What an accessor computes. Numbers are their bit patterns.
pub enum Term {
    Cell,
    Value,
    Shift,
    Half,
    Count(nat),
    LowHalf,
    Joined(Join, Box<Term>, Box<Term>),
    Grouped(Box<Term>),
    Flipped(Box<Term>),
    Cast(Cast, Box<Term>),
    Element(nat, Box<Term>),
    Shared(nat, Box<Term>),
}

/// What an accessor runs on: its arguments, what it has computed, and the buffers.
pub struct Frame {
    pub cell: u32,
    pub value: u32,
    pub shift: u32,
    pub half: u32,
    pub buffers: Seq<Seq<u32>>,
    pub result: u32,
}

impl Term {
    pub open spec fn spelled(self) -> Seq<char>
        decreases self,
    {
        match self {
            Term::Cell => "cell"@,
            Term::Value => "v"@,
            Term::Shift => "sh"@,
            Term::Half => "h"@,
            Term::Count(n) => decimal(n as int) + "u"@,
            Term::LowHalf => "0xffffu"@,
            Term::Joined(j, a, b) => a.spelled() + j.spelled() + b.spelled(),
            Term::Grouped(a) => "("@ + a.spelled() + ")"@,
            Term::Flipped(a) => "~"@ + a.spelled(),
            Term::Cast(c, a) => c.spelled() + a.spelled() + ")"@,
            Term::Element(n, a) => "ddf"@ + decimal(n as int) + "["@ + a.spelled() + "]"@,
            Term::Shared(n, a) => "atomicLoad(&ddf"@ + decimal(n as int) + "["@ + a.spelled()
                + "])"@,
        }
    }

    pub open spec fn value(self, codec: Codec, f: Frame) -> u32
        decreases self,
    {
        match self {
            Term::Cell => f.cell,
            Term::Value => f.value,
            Term::Shift => f.shift,
            Term::Half => f.half,
            Term::Count(n) => n as u32,
            Term::LowHalf => 0xffff,
            Term::Joined(j, a, b) => j.value(a.value(codec, f), b.value(codec, f)),
            Term::Grouped(a) => a.value(codec, f),
            Term::Flipped(a) => !a.value(codec, f),
            Term::Cast(c, a) => c.value(codec, a.value(codec, f)),
            Term::Element(n, a) => f.buffers[n as int][a.value(codec, f) as int],
            Term::Shared(n, a) => f.buffers[n as int][a.value(codec, f) as int],
        }
    }
}

/// One statement of an accessor.
pub enum Step {
    Shift(Term),
    Half(Term),
    Put(nat, Term, Term),
    /// Clear or mark bits of an element that other cells share.
    Clear(nat, Term, Term),
    Mark(nat, Term, Term),
    Give(Term),
}

/// Buffers with one element changed.
pub open spec fn with_element(buffers: Seq<Seq<u32>>, n: int, at: int, x: u32) -> Seq<Seq<u32>> {
    buffers.update(n, buffers[n].update(at, x))
}

impl Step {
    pub open spec fn spelled(self) -> Seq<char> {
        match self {
            Step::Shift(a) => "let sh = "@ + a.spelled() + ";"@,
            Step::Half(a) => "let h = "@ + a.spelled() + ";"@,
            Step::Put(n, at, a) => "ddf"@ + decimal(n as int) + "["@ + at.spelled() + "] = "@
                + a.spelled() + ";"@,
            Step::Clear(n, at, a) => "atomicAnd(&ddf"@ + decimal(n as int) + "["@ + at.spelled()
                + "], "@ + a.spelled() + ");"@,
            Step::Mark(n, at, a) => "atomicOr(&ddf"@ + decimal(n as int) + "["@ + at.spelled()
                + "], "@ + a.spelled() + ");"@,
            Step::Give(a) => "return "@ + a.spelled() + ";"@,
        }
    }

    pub open spec fn after(self, codec: Codec, f: Frame) -> Frame {
        match self {
            Step::Shift(a) => Frame { shift: a.value(codec, f), ..f },
            Step::Half(a) => Frame { half: a.value(codec, f), ..f },
            Step::Put(n, at, a) => Frame {
                buffers: with_element(
                    f.buffers,
                    n as int,
                    at.value(codec, f) as int,
                    a.value(codec, f),
                ),
                ..f
            },
            Step::Clear(n, at, a) => Frame {
                buffers: with_element(
                    f.buffers,
                    n as int,
                    at.value(codec, f) as int,
                    f.buffers[n as int][at.value(codec, f) as int] & a.value(codec, f),
                ),
                ..f
            },
            Step::Mark(n, at, a) => Frame {
                buffers: with_element(
                    f.buffers,
                    n as int,
                    at.value(codec, f) as int,
                    f.buffers[n as int][at.value(codec, f) as int] | a.value(codec, f),
                ),
                ..f
            },
            Step::Give(a) => Frame { result: a.value(codec, f), ..f },
        }
    }
}

/// The body of an accessor, on one line or on a line per statement.
pub struct Body {
    pub long: bool,
    pub steps: Seq<Step>,
}

/// The statements one after the other, each between the same two texts.
pub open spec fn steps_spelled(steps: Seq<Step>, before: Seq<char>, behind: Seq<char>) -> Seq<char>
    decreases steps.len(),
{
    if steps.len() == 0 {
        Seq::empty()
    } else {
        steps_spelled(steps.drop_last(), before, behind) + (before + steps.last().spelled()
            + behind)
    }
}

pub open spec fn after_steps(codec: Codec, f: Frame, steps: Seq<Step>) -> Frame
    decreases steps.len(),
{
    if steps.len() == 0 {
        f
    } else {
        steps.last().after(codec, after_steps(codec, f, steps.drop_last()))
    }
}

impl Body {
    pub open spec fn spelled(self) -> Seq<char> {
        if self.long {
            "{\n"@ + steps_spelled(self.steps, "    "@, "\n"@) + "}\n"@
        } else {
            "{ "@ + steps_spelled(self.steps, Seq::empty(), " "@) + "}\n"@
        }
    }

    /// What the body gives back of a cell.
    pub open spec fn read(self, codec: Codec, buffers: Seq<Seq<u32>>, cell: u32) -> u32 {
        after_steps(
            codec,
            Frame { cell, value: 0, shift: 0, half: 0, buffers, result: 0 },
            self.steps,
        ).result
    }

    /// The buffers after the body has stored a number for a cell.
    pub open spec fn written(
        self,
        codec: Codec,
        buffers: Seq<Seq<u32>>,
        cell: u32,
        value: u32,
    ) -> Seq<Seq<u32>> {
        after_steps(
            codec,
            Frame { cell, value, shift: 0, half: 0, buffers, result: 0 },
            self.steps,
        ).buffers
    }
}

/// The reader and the writer of a direction, as functions of those names.
pub open spec fn pair_spelled(i: nat, get: Body, put: Body) -> Seq<char> {
    "fn ddf_get_"@ + decimal(i as int) + "(cell: u32) -> f32 "@ + get.spelled() + "fn ddf_put_"@
        + decimal(i as int) + "(cell: u32, v: f32) "@ + put.spelled()
}

/// What a number comes back as in a layout.
pub open spec fn kept(codec: Codec, layout: DdfLayout, value: u32) -> u32 {
    match layout {
        DdfLayout::Fp32 => value,
        _ => (codec.decode)((codec.encode)(value)),
    }
}

/// How many elements a buffer of so many cells has in a layout.
pub open spec fn elements(layout: DdfLayout, cells: int) -> int {
    match layout {
        DdfLayout::Fp16cPacked => (cells + 1) / 2,
        _ => cells,
    }
}

spec fn direct(a: Term) -> Box<Term> {
    Box::new(a)
}

spec fn plain_get(i: nat) -> Body {
    Body {
        long: false,
        steps: seq![
            Step::Give(Term::Cast(Cast::Number, direct(Term::Element(i, direct(Term::Cell))))),
        ],
    }
}

spec fn plain_put(i: nat) -> Body {
    Body {
        long: false,
        steps: seq![Step::Put(i, Term::Cell, Term::Cast(Cast::Bits, direct(Term::Value)))],
    }
}

spec fn short_get(i: nat) -> Body {
    Body {
        long: false,
        steps: seq![
            Step::Give(
                Term::Cast(
                    Cast::Decoded,
                    direct(Term::Cast(Cast::Wide, direct(Term::Element(i, direct(Term::Cell))))),
                ),
            ),
        ],
    }
}

spec fn short_put(i: nat) -> Body {
    Body {
        long: false,
        steps: seq![
            Step::Put(
                i,
                Term::Cell,
                Term::Cast(
                    Cast::Short,
                    direct(Term::Cast(Cast::Encoded, direct(Term::Value))),
                ),
            ),
        ],
    }
}

spec fn which_half() -> Step {
    Step::Shift(
        Term::Joined(
            Join::Times,
            direct(
                Term::Grouped(
                    direct(Term::Joined(Join::And, direct(Term::Cell), direct(Term::Count(1)))),
                ),
            ),
            direct(Term::Count(16)),
        ),
    )
}

spec fn own_word() -> Term {
    Term::Joined(Join::Right, direct(Term::Cell), direct(Term::Count(1)))
}

spec fn packed_give(i: nat) -> Step {
    Step::Give(
        Term::Cast(
            Cast::Decoded,
            direct(
                Term::Joined(
                    Join::And,
                    direct(
                        Term::Grouped(
                            direct(
                                Term::Joined(
                                    Join::Right,
                                    direct(Term::Shared(i, direct(own_word()))),
                                    direct(Term::Shift),
                                ),
                            ),
                        ),
                    ),
                    direct(Term::LowHalf),
                ),
            ),
        ),
    )
}

spec fn packed_half() -> Step {
    Step::Half(
        Term::Joined(
            Join::Left,
            direct(Term::Cast(Cast::Encoded, direct(Term::Value))),
            direct(Term::Shift),
        ),
    )
}

spec fn packed_clear(i: nat) -> Step {
    Step::Clear(
        i,
        own_word(),
        Term::Flipped(
            direct(
                Term::Grouped(
                    direct(
                        Term::Joined(Join::Left, direct(Term::LowHalf), direct(Term::Shift)),
                    ),
                ),
            ),
        ),
    )
}

spec fn packed_set(i: nat) -> Step {
    Step::Mark(i, own_word(), Term::Half)
}

spec fn packed_get(i: nat) -> Body {
    Body { long: true, steps: seq![which_half(), packed_give(i)] }
}

spec fn packed_put(i: nat) -> Body {
    Body {
        long: true,
        steps: seq![which_half(), packed_half(), packed_clear(i), packed_set(i)],
    }
}

spec fn get_of(i: nat, layout: DdfLayout) -> Body {
    match layout {
        DdfLayout::Fp32 => plain_get(i),
        DdfLayout::Fp16cPerCell => short_get(i),
        DdfLayout::Fp16cPacked => packed_get(i),
    }
}

spec fn put_of(i: nat, layout: DdfLayout) -> Body {
    match layout {
        DdfLayout::Fp32 => plain_put(i),
        DdfLayout::Fp16cPerCell => short_put(i),
        DdfLayout::Fp16cPacked => packed_put(i),
    }
}

/// A text around a number moves into one around it.
proof fn lemma_around(p: Seq<char>, a: Seq<char>, n: Seq<char>, b: Seq<char>, q: Seq<char>)
    ensures
        p + (a + n + b) + q == (p + a) + n + (b + q),
{
    assert(p + (a + n + b) + q =~= (p + a) + n + (b + q));
}

proof fn lemma_one_step(s: Step, before: Seq<char>, behind: Seq<char>)
    ensures
        steps_spelled(seq![s], before, behind) == before + s.spelled() + behind,
{
    reveal_with_fuel(steps_spelled, 2);
    assert(seq![s].drop_last() =~= Seq::<Step>::empty());
    assert(steps_spelled(seq![s], before, behind) =~= before + s.spelled() + behind);
}

proof fn lemma_one_run(codec: Codec, f: Frame, s: Step)
    ensures
        after_steps(codec, f, seq![s]) == s.after(codec, f),
{
    reveal_with_fuel(after_steps, 2);
    assert(seq![s].drop_last() =~= Seq::<Step>::empty());
}

proof fn lemma_append(s: Seq<char>, a: Seq<char>, b: Seq<char>)
    ensures
        s + (a + b) == s + a + b,
{
    assert(s + (a + b) =~= s + a + b);
}

proof fn lemma_join(s: Seq<char>, a: Seq<char>, n: Seq<char>, b: Seq<char>)
    ensures
        s + (a + n + b) == s + a + n + b,
{
    assert(s + (a + n + b) =~= s + a + n + b);
}

/// The two functions with what stands between two numbers read as one text.
proof fn lemma_pair(
    n: Seq<char>,
    x: (Seq<char>, Seq<char>, Seq<char>, Seq<char>),
    a: Seq<char>,
    b: Seq<char>,
    c: Seq<char>,
    d: Seq<char>,
)
    ensures
        x.0 + n + x.1 + (a + n + b) + x.2 + n + x.3 + (c + n + d) == x.0 + n + (x.1 + a) + n + (b
            + x.2) + n + (x.3 + c) + n + d,
{
    let s = x.0 + n + x.1;
    lemma_join(s, a, n, b);
    lemma_append(x.0 + n, x.1, a);
    let t = x.0 + n + (x.1 + a) + n;
    lemma_append(t, b, x.2);
    let u = t + (b + x.2) + n;
    lemma_join(u + x.3, c, n, d);
    lemma_append(u, x.3, c);
}

proof fn lemma_plain_literals()
    ensures
        "["@ + "cell"@ + "]"@ == "[cell]"@,
        "bitcast<f32>("@ + "ddf"@ == "bitcast<f32>(ddf"@,
        "[cell]"@ + ")"@ == "[cell])"@,
        "return "@ + "bitcast<f32>(ddf"@ == "return bitcast<f32>(ddf"@,
        "[cell])"@ + ";"@ == "[cell]);"@,
        "{ "@ + "return bitcast<f32>(ddf"@ == "{ return bitcast<f32>(ddf"@,
        "[cell]);"@ + " "@ + "}\n"@ == "[cell]); }\n"@,
        "["@ + "cell"@ + "] = "@ + ("bitcast<u32>("@ + "v"@ + ")"@) + ";"@ == "[cell] = bitcast<u32>(v);"@,
        "{ "@ + "ddf"@ == "{ ddf"@,
        "[cell] = bitcast<u32>(v);"@ + " "@ + "}\n"@ == "[cell] = bitcast<u32>(v); }\n"@,
{
    reveal_strlit("ddf");
    reveal_strlit("[");
    reveal_strlit("cell");
    reveal_strlit("]");
    reveal_strlit("[cell]");
    reveal_strlit("bitcast<f32>(");
    reveal_strlit("bitcast<f32>(ddf");
    reveal_strlit(")");
    reveal_strlit("[cell])");
    reveal_strlit("return ");
    reveal_strlit("return bitcast<f32>(ddf");
    reveal_strlit(";");
    reveal_strlit("[cell]);");
    reveal_strlit("{ ");
    reveal_strlit("{ return bitcast<f32>(ddf");
    reveal_strlit(" ");
    reveal_strlit("}\n");
    reveal_strlit("[cell]); }\n");
    reveal_strlit("] = ");
    reveal_strlit("bitcast<u32>(");
    reveal_strlit("v");
    reveal_strlit("[cell] = bitcast<u32>(v);");
    reveal_strlit("{ ddf");
    reveal_strlit("[cell] = bitcast<u32>(v); }\n");
    assert("["@ + "cell"@ + "]"@ =~= "[cell]"@);
    assert("bitcast<f32>("@ + "ddf"@ =~= "bitcast<f32>(ddf"@);
    assert("[cell]"@ + ")"@ =~= "[cell])"@);
    assert("return "@ + "bitcast<f32>(ddf"@ =~= "return bitcast<f32>(ddf"@);
    assert("[cell])"@ + ";"@ =~= "[cell]);"@);
    assert("{ "@ + "return bitcast<f32>(ddf"@ =~= "{ return bitcast<f32>(ddf"@);
    assert("[cell]);"@ + " "@ + "}\n"@ =~= "[cell]); }\n"@);
    assert("["@ + "cell"@ + "] = "@ + ("bitcast<u32>("@ + "v"@ + ")"@) + ";"@ =~= "[cell] = bitcast<u32>(v);"@);
    assert("{ "@ + "ddf"@ =~= "{ ddf"@);
    assert("[cell] = bitcast<u32>(v);"@ + " "@ + "}\n"@ =~= "[cell] = bitcast<u32>(v); }\n"@);
}

proof fn lemma_plain_seams()
    ensures
        "(cell: u32) -> f32 "@ + "{ return bitcast<f32>(ddf"@ == "(cell: u32) -> f32 { return bitcast<f32>(ddf"@,
        "[cell]); }\n"@ + "fn ddf_put_"@ == "[cell]); }\nfn ddf_put_"@,
        "(cell: u32, v: f32) "@ + "{ ddf"@ == "(cell: u32, v: f32) { ddf"@,
{
    reveal_strlit("(cell: u32) -> f32 ");
    reveal_strlit("{ return bitcast<f32>(ddf");
    reveal_strlit("(cell: u32) -> f32 { return bitcast<f32>(ddf");
    reveal_strlit("[cell]); }\n");
    reveal_strlit("fn ddf_put_");
    reveal_strlit("[cell]); }\nfn ddf_put_");
    reveal_strlit("(cell: u32, v: f32) ");
    reveal_strlit("{ ddf");
    reveal_strlit("(cell: u32, v: f32) { ddf");
    assert("(cell: u32) -> f32 "@ + "{ return bitcast<f32>(ddf"@ =~= "(cell: u32) -> f32 { return bitcast<f32>(ddf"@);
    assert("[cell]); }\n"@ + "fn ddf_put_"@ =~= "[cell]); }\nfn ddf_put_"@);
    assert("(cell: u32, v: f32) "@ + "{ ddf"@ =~= "(cell: u32, v: f32) { ddf"@);
}

/// An element of a buffer, its number in the middle.
proof fn lemma_element(n: Seq<char>, at: Seq<char>)
    ensures
        "ddf"@ + n + "["@ + at + "]"@ == "ddf"@ + n + ("["@ + at + "]"@),
        forall|a: Seq<char>|
            #![trigger "ddf"@ + n + "["@ + at + "] = "@ + a + ";"@]
            "ddf"@ + n + "["@ + at + "] = "@ + a + ";"@ == "ddf"@ + n + ("["@ + at + "] = "@ + a
                + ";"@),
{
    assert("ddf"@ + n + "["@ + at + "]"@ =~= "ddf"@ + n + ("["@ + at + "]"@));
    assert forall|a: Seq<char>|
        #![trigger "ddf"@ + n + "["@ + at + "] = "@ + a + ";"@]
        "ddf"@ + n + "["@ + at + "] = "@ + a + ";"@ == "ddf"@ + n + ("["@ + at + "] = "@ + a
            + ";"@) by {
        assert("ddf"@ + n + "["@ + at + "] = "@ + a + ";"@ =~= "ddf"@ + n + ("["@ + at + "] = "@ + a
            + ";"@));
    }
}

/// A one-line body around one statement.
proof fn lemma_short_body(s: Step)
    ensures
        (Body { long: false, steps: seq![s] }).spelled() == "{ "@ + s.spelled() + (" "@ + "}\n"@),
{
    lemma_one_step(s, Seq::empty(), " "@);
    let x = s.spelled();
    assert("{ "@ + (Seq::<char>::empty() + x + " "@) + "}\n"@ =~= "{ "@ + x + (" "@ + "}\n"@));
}

#[verifier::spinoff_prover]
#[verifier::rlimit(60)]
proof fn lemma_plain(i: nat)
    ensures
        fp32_accessors(i as int) == pair_spelled(i, plain_get(i), plain_put(i)),
{
    reveal(fp32_accessors);
    reveal_with_fuel(Term::spelled, 3);
    lemma_plain_literals();
    lemma_plain_seams();
    let n = decimal(i as int);
    lemma_element(n, "cell"@);
    let element = "ddf"@ + n + "[cell]"@;
    lemma_around("bitcast<f32>("@, "ddf"@, n, "[cell]"@, ")"@);
    let cast = "bitcast<f32>(ddf"@ + n + "[cell])"@;
    lemma_around("return "@, "bitcast<f32>(ddf"@, n, "[cell])"@, ";"@);
    let give = "return bitcast<f32>(ddf"@ + n + "[cell]);"@;
    assert(plain_get(i).steps[0].spelled() == give);
    lemma_short_body(plain_get(i).steps[0]);
    lemma_around("{ "@, "return bitcast<f32>(ddf"@, n, "[cell]);"@, " "@ + "}\n"@);
    lemma_append("[cell]);"@, " "@, "}\n"@);
    assert(plain_get(i).spelled() == "{ return bitcast<f32>(ddf"@ + n + "[cell]); }\n"@);
    let put = "ddf"@ + n + "[cell] = bitcast<u32>(v);"@;
    assert(plain_put(i).steps[0].spelled() == put);
    lemma_short_body(plain_put(i).steps[0]);
    lemma_around("{ "@, "ddf"@, n, "[cell] = bitcast<u32>(v);"@, " "@ + "}\n"@);
    lemma_append("[cell] = bitcast<u32>(v);"@, " "@, "}\n"@);
    assert(plain_put(i).spelled() == "{ ddf"@ + n + "[cell] = bitcast<u32>(v); }\n"@);
    lemma_pair(
        n,
        ("fn ddf_get_"@, "(cell: u32) -> f32 "@, "fn ddf_put_"@, "(cell: u32, v: f32) "@),
        "{ return bitcast<f32>(ddf"@,
        "[cell]); }\n"@,
        "{ ddf"@,
        "[cell] = bitcast<u32>(v); }\n"@,
    );
}

proof fn lemma_short_literals()
    ensures
        "["@ + "cell"@ + "]"@ == "[cell]"@,
        "u32("@ + "ddf"@ == "u32(ddf"@,
        "[cell]"@ + ")"@ == "[cell])"@,
        "fp16c_to_f32("@ + "u32(ddf"@ == "fp16c_to_f32(u32(ddf"@,
        "[cell])"@ + ")"@ == "[cell]))"@,
        "return "@ + "fp16c_to_f32(u32(ddf"@ == "return fp16c_to_f32(u32(ddf"@,
        "[cell]))"@ + ";"@ == "[cell]));"@,
        "{ "@ + "return fp16c_to_f32(u32(ddf"@ == "{ return fp16c_to_f32(u32(ddf"@,
        "[cell]));"@ + " "@ + "}\n"@ == "[cell])); }\n"@,
        "["@ + "cell"@ + "] = "@ + ("u16("@ + ("f32_to_fp16c("@ + "v"@ + ")"@) + ")"@) + ";"@ == "[cell] = u16(f32_to_fp16c(v));"@,
        "{ "@ + "ddf"@ == "{ ddf"@,
        "[cell] = u16(f32_to_fp16c(v));"@ + " "@ + "}\n"@ == "[cell] = u16(f32_to_fp16c(v)); }\n"@,
{
    reveal_strlit("[");
    reveal_strlit("cell");
    reveal_strlit("]");
    reveal_strlit("[cell]");
    reveal_strlit("u32(");
    reveal_strlit("ddf");
    reveal_strlit("u32(ddf");
    reveal_strlit(")");
    reveal_strlit("[cell])");
    reveal_strlit("fp16c_to_f32(");
    reveal_strlit("fp16c_to_f32(u32(ddf");
    reveal_strlit("[cell]))");
    reveal_strlit("return ");
    reveal_strlit("return fp16c_to_f32(u32(ddf");
    reveal_strlit(";");
    reveal_strlit("[cell]));");
    reveal_strlit("{ ");
    reveal_strlit("{ return fp16c_to_f32(u32(ddf");
    reveal_strlit(" ");
    reveal_strlit("}\n");
    reveal_strlit("[cell])); }\n");
    reveal_strlit("] = ");
    reveal_strlit("u16(");
    reveal_strlit("f32_to_fp16c(");
    reveal_strlit("v");
    reveal_strlit("[cell] = u16(f32_to_fp16c(v));");
    reveal_strlit("{ ddf");
    reveal_strlit("[cell] = u16(f32_to_fp16c(v)); }\n");
    assert("["@ + "cell"@ + "]"@ =~= "[cell]"@);
    assert("u32("@ + "ddf"@ =~= "u32(ddf"@);
    assert("[cell]"@ + ")"@ =~= "[cell])"@);
    assert("fp16c_to_f32("@ + "u32(ddf"@ =~= "fp16c_to_f32(u32(ddf"@);
    assert("[cell])"@ + ")"@ =~= "[cell]))"@);
    assert("return "@ + "fp16c_to_f32(u32(ddf"@ =~= "return fp16c_to_f32(u32(ddf"@);
    assert("[cell]))"@ + ";"@ =~= "[cell]));"@);
    assert("{ "@ + "return fp16c_to_f32(u32(ddf"@ =~= "{ return fp16c_to_f32(u32(ddf"@);
    assert("[cell]));"@ + " "@ + "}\n"@ =~= "[cell])); }\n"@);
    assert("["@ + "cell"@ + "] = "@ + ("u16("@ + ("f32_to_fp16c("@ + "v"@ + ")"@) + ")"@) + ";"@ =~= "[cell] = u16(f32_to_fp16c(v));"@);
    assert("{ "@ + "ddf"@ =~= "{ ddf"@);
    assert("[cell] = u16(f32_to_fp16c(v));"@ + " "@ + "}\n"@ =~= "[cell] = u16(f32_to_fp16c(v)); }\n"@);
}

proof fn lemma_short_seams()
    ensures
        "(cell: u32) -> f32 "@ + "{ return fp16c_to_f32(u32(ddf"@ == "(cell: u32) -> f32 { return fp16c_to_f32(u32(ddf"@,
        "[cell])); }\n"@ + "fn ddf_put_"@ == "[cell])); }\nfn ddf_put_"@,
        "(cell: u32, v: f32) "@ + "{ ddf"@ == "(cell: u32, v: f32) { ddf"@,
{
    reveal_strlit("(cell: u32) -> f32 ");
    reveal_strlit("{ return fp16c_to_f32(u32(ddf");
    reveal_strlit("(cell: u32) -> f32 { return fp16c_to_f32(u32(ddf");
    reveal_strlit("[cell])); }\n");
    reveal_strlit("fn ddf_put_");
    reveal_strlit("[cell])); }\nfn ddf_put_");
    reveal_strlit("(cell: u32, v: f32) ");
    reveal_strlit("{ ddf");
    reveal_strlit("(cell: u32, v: f32) { ddf");
    assert("(cell: u32) -> f32 "@ + "{ return fp16c_to_f32(u32(ddf"@ =~= "(cell: u32) -> f32 { return fp16c_to_f32(u32(ddf"@);
    assert("[cell])); }\n"@ + "fn ddf_put_"@ =~= "[cell])); }\nfn ddf_put_"@);
    assert("(cell: u32, v: f32) "@ + "{ ddf"@ =~= "(cell: u32, v: f32) { ddf"@);
}

#[verifier::spinoff_prover]
#[verifier::rlimit(60)]
proof fn lemma_short(i: nat)
    ensures
        fp16c_accessors(i as int) == pair_spelled(i, short_get(i), short_put(i)),
{
    reveal(fp16c_accessors);
    reveal_with_fuel(Term::spelled, 4);
    lemma_short_literals();
    lemma_short_seams();
    let n = decimal(i as int);
    lemma_element(n, "cell"@);
    lemma_around("u32("@, "ddf"@, n, "[cell]"@, ")"@);
    lemma_around("fp16c_to_f32("@, "u32(ddf"@, n, "[cell])"@, ")"@);
    lemma_around("return "@, "fp16c_to_f32(u32(ddf"@, n, "[cell]))"@, ";"@);
    let give = "return fp16c_to_f32(u32(ddf"@ + n + "[cell]));"@;
    assert(short_get(i).steps[0].spelled() == give);
    lemma_short_body(short_get(i).steps[0]);
    lemma_around("{ "@, "return fp16c_to_f32(u32(ddf"@, n, "[cell]));"@, " "@ + "}\n"@);
    lemma_append("[cell]));"@, " "@, "}\n"@);
    assert(short_get(i).spelled() == "{ return fp16c_to_f32(u32(ddf"@ + n + "[cell])); }\n"@);
    let put = "ddf"@ + n + "[cell] = u16(f32_to_fp16c(v));"@;
    assert(short_put(i).steps[0].spelled() == put);
    lemma_short_body(short_put(i).steps[0]);
    lemma_around("{ "@, "ddf"@, n, "[cell] = u16(f32_to_fp16c(v));"@, " "@ + "}\n"@);
    lemma_append("[cell] = u16(f32_to_fp16c(v));"@, " "@, "}\n"@);
    assert(short_put(i).spelled() == "{ ddf"@ + n + "[cell] = u16(f32_to_fp16c(v)); }\n"@);
    lemma_pair(
        n,
        ("fn ddf_get_"@, "(cell: u32) -> f32 "@, "fn ddf_put_"@, "(cell: u32, v: f32) "@),
        "{ return fp16c_to_f32(u32(ddf"@,
        "[cell])); }\n"@,
        "{ ddf"@,
        "[cell] = u16(f32_to_fp16c(v)); }\n"@,
    );
}

proof fn lemma_half_literals()
    ensures
        "let sh = "@ + ("("@ + ("cell"@ + " & "@ + (seq!['1'] + "u"@)) + ")"@ + " * "@ + (seq!['1', '6'] + "u"@)) + ";"@ == "let sh = (cell & 1u) * 16u;"@,
        "cell"@ + " >> "@ + (seq!['1'] + "u"@) == "cell >> 1u"@,
        "let h = "@ + ("f32_to_fp16c("@ + "v"@ + ")"@ + " << "@ + "sh"@) + ";"@ == "let h = f32_to_fp16c(v) << sh;"@,
{
    reveal_strlit("let sh = ");
    reveal_strlit("(");
    reveal_strlit("cell");
    reveal_strlit(" & ");
    reveal_strlit("u");
    reveal_strlit(")");
    reveal_strlit(" * ");
    reveal_strlit(";");
    reveal_strlit("let sh = (cell & 1u) * 16u;");
    reveal_strlit(" >> ");
    reveal_strlit("cell >> 1u");
    reveal_strlit("let h = ");
    reveal_strlit("f32_to_fp16c(");
    reveal_strlit("v");
    reveal_strlit(" << ");
    reveal_strlit("sh");
    reveal_strlit("let h = f32_to_fp16c(v) << sh;");
    assert("let sh = "@ + ("("@ + ("cell"@ + " & "@ + (seq!['1'] + "u"@)) + ")"@ + " * "@ + (seq!['1', '6'] + "u"@)) + ";"@ =~= "let sh = (cell & 1u) * 16u;"@);
    assert("cell"@ + " >> "@ + (seq!['1'] + "u"@) =~= "cell >> 1u"@);
    assert("let h = "@ + ("f32_to_fp16c("@ + "v"@ + ")"@ + " << "@ + "sh"@) + ";"@ =~= "let h = f32_to_fp16c(v) << sh;"@);
}

proof fn lemma_packed_give_literals()
    ensures
        "["@ + "cell >> 1u"@ + "])"@ == "[cell >> 1u])"@,
        "[cell >> 1u])"@ + (" >> "@ + "sh"@) == "[cell >> 1u]) >> sh"@,
        "("@ + "atomicLoad(&ddf"@ == "(atomicLoad(&ddf"@,
        "[cell >> 1u]) >> sh"@ + ")"@ == "[cell >> 1u]) >> sh)"@,
        "[cell >> 1u]) >> sh)"@ + (" & "@ + "0xffffu"@) == "[cell >> 1u]) >> sh) & 0xffffu"@,
        "fp16c_to_f32("@ + "(atomicLoad(&ddf"@ == "fp16c_to_f32((atomicLoad(&ddf"@,
        "[cell >> 1u]) >> sh) & 0xffffu"@ + ")"@ == "[cell >> 1u]) >> sh) & 0xffffu)"@,
        "return "@ + "fp16c_to_f32((atomicLoad(&ddf"@ == "return fp16c_to_f32((atomicLoad(&ddf"@,
        "[cell >> 1u]) >> sh) & 0xffffu)"@ + ";"@ == "[cell >> 1u]) >> sh) & 0xffffu);"@,
{
    reveal_strlit("[");
    reveal_strlit("cell >> 1u");
    reveal_strlit("])");
    reveal_strlit("[cell >> 1u])");
    reveal_strlit(" >> ");
    reveal_strlit("sh");
    reveal_strlit("[cell >> 1u]) >> sh");
    reveal_strlit("(");
    reveal_strlit("atomicLoad(&ddf");
    reveal_strlit("(atomicLoad(&ddf");
    reveal_strlit(")");
    reveal_strlit("[cell >> 1u]) >> sh)");
    reveal_strlit(" & ");
    reveal_strlit("0xffffu");
    reveal_strlit("[cell >> 1u]) >> sh) & 0xffffu");
    reveal_strlit("fp16c_to_f32(");
    reveal_strlit("fp16c_to_f32((atomicLoad(&ddf");
    reveal_strlit("[cell >> 1u]) >> sh) & 0xffffu)");
    reveal_strlit("return ");
    reveal_strlit("return fp16c_to_f32((atomicLoad(&ddf");
    reveal_strlit(";");
    reveal_strlit("[cell >> 1u]) >> sh) & 0xffffu);");
    assert("["@ + "cell >> 1u"@ + "])"@ =~= "[cell >> 1u])"@);
    assert("[cell >> 1u])"@ + (" >> "@ + "sh"@) =~= "[cell >> 1u]) >> sh"@);
    assert("("@ + "atomicLoad(&ddf"@ =~= "(atomicLoad(&ddf"@);
    assert("[cell >> 1u]) >> sh"@ + ")"@ =~= "[cell >> 1u]) >> sh)"@);
    assert("[cell >> 1u]) >> sh)"@ + (" & "@ + "0xffffu"@) =~= "[cell >> 1u]) >> sh) & 0xffffu"@);
    assert("fp16c_to_f32("@ + "(atomicLoad(&ddf"@ =~= "fp16c_to_f32((atomicLoad(&ddf"@);
    assert("[cell >> 1u]) >> sh) & 0xffffu"@ + ")"@ =~= "[cell >> 1u]) >> sh) & 0xffffu)"@);
    assert("return "@ + "fp16c_to_f32((atomicLoad(&ddf"@ =~= "return fp16c_to_f32((atomicLoad(&ddf"@);
    assert("[cell >> 1u]) >> sh) & 0xffffu)"@ + ";"@ =~= "[cell >> 1u]) >> sh) & 0xffffu);"@);
}

proof fn lemma_packed_put_literals()
    ensures
        "["@ + "cell >> 1u"@ + "], "@ + ("~"@ + ("("@ + ("0xffffu"@ + " << "@ + "sh"@) + ")"@)) + ");"@ == "[cell >> 1u], ~(0xffffu << sh));"@,
        "["@ + "cell >> 1u"@ + "], "@ + "h"@ + ");"@ == "[cell >> 1u], h);"@,
{
    reveal_strlit("[");
    reveal_strlit("cell >> 1u");
    reveal_strlit("], ");
    reveal_strlit("~");
    reveal_strlit("(");
    reveal_strlit("0xffffu");
    reveal_strlit(" << ");
    reveal_strlit("sh");
    reveal_strlit(")");
    reveal_strlit(");");
    reveal_strlit("[cell >> 1u], ~(0xffffu << sh));");
    reveal_strlit("h");
    reveal_strlit("[cell >> 1u], h);");
    assert("["@ + "cell >> 1u"@ + "], "@ + ("~"@ + ("("@ + ("0xffffu"@ + " << "@ + "sh"@) + ")"@)) + ");"@ =~= "[cell >> 1u], ~(0xffffu << sh));"@);
    assert("["@ + "cell >> 1u"@ + "], "@ + "h"@ + ");"@ =~= "[cell >> 1u], h);"@);
}

proof fn lemma_packed_frames()
    ensures
        "{\n"@ + ("    "@ + "let sh = (cell & 1u) * 16u;"@ + "\n"@) == "{\n    let sh = (cell & 1u) * 16u;\n"@,
        "{\n    let sh = (cell & 1u) * 16u;\n"@ + ("    "@ + "return fp16c_to_f32((atomicLoad(&ddf"@) == "{\n    let sh = (cell & 1u) * 16u;\n    return fp16c_to_f32((atomicLoad(&ddf"@,
        "[cell >> 1u]) >> sh) & 0xffffu);"@ + "\n"@ + "}\n"@ == "[cell >> 1u]) >> sh) & 0xffffu);\n}\n"@,
{
    reveal_strlit("{\n");
    reveal_strlit("    ");
    reveal_strlit("let sh = (cell & 1u) * 16u;");
    reveal_strlit("\n");
    reveal_strlit("{\n    let sh = (cell & 1u) * 16u;\n");
    reveal_strlit("return fp16c_to_f32((atomicLoad(&ddf");
    reveal_strlit("{\n    let sh = (cell & 1u) * 16u;\n    return fp16c_to_f32((atomicLoad(&ddf");
    reveal_strlit("[cell >> 1u]) >> sh) & 0xffffu);");
    reveal_strlit("}\n");
    reveal_strlit("[cell >> 1u]) >> sh) & 0xffffu);\n}\n");
    assert("{\n"@ + ("    "@ + "let sh = (cell & 1u) * 16u;"@ + "\n"@) =~= "{\n    let sh = (cell & 1u) * 16u;\n"@);
    assert("{\n    let sh = (cell & 1u) * 16u;\n"@ + ("    "@ + "return fp16c_to_f32((atomicLoad(&ddf"@) =~= "{\n    let sh = (cell & 1u) * 16u;\n    return fp16c_to_f32((atomicLoad(&ddf"@);
    assert("[cell >> 1u]) >> sh) & 0xffffu);"@ + "\n"@ + "}\n"@ =~= "[cell >> 1u]) >> sh) & 0xffffu);\n}\n"@);
}

proof fn lemma_packed_put_frames()
    ensures
        "{\n    let sh = (cell & 1u) * 16u;\n"@ + ("    "@ + "let h = f32_to_fp16c(v) << sh;"@ + "\n"@) == "{\n    let sh = (cell & 1u) * 16u;\n    let h = f32_to_fp16c(v) << sh;\n"@,
        "{\n    let sh = (cell & 1u) * 16u;\n    let h = f32_to_fp16c(v) << sh;\n"@ + ("    "@ + "atomicAnd(&ddf"@) == "{\n    let sh = (cell & 1u) * 16u;\n    let h = f32_to_fp16c(v) << sh;\n    atomicAnd(&ddf"@,
        "[cell >> 1u], ~(0xffffu << sh));"@ + "\n"@ + ("    "@ + "atomicOr(&ddf"@) == "[cell >> 1u], ~(0xffffu << sh));\n    atomicOr(&ddf"@,
        "[cell >> 1u], h);"@ + "\n"@ + "}\n"@ == "[cell >> 1u], h);\n}\n"@,
{
    reveal_strlit("{\n    let sh = (cell & 1u) * 16u;\n");
    reveal_strlit("    ");
    reveal_strlit("let h = f32_to_fp16c(v) << sh;");
    reveal_strlit("\n");
    reveal_strlit("{\n    let sh = (cell & 1u) * 16u;\n    let h = f32_to_fp16c(v) << sh;\n");
    reveal_strlit("atomicAnd(&ddf");
    reveal_strlit("{\n    let sh = (cell & 1u) * 16u;\n    let h = f32_to_fp16c(v) << sh;\n    atomicAnd(&ddf");
    reveal_strlit("[cell >> 1u], ~(0xffffu << sh));");
    reveal_strlit("atomicOr(&ddf");
    reveal_strlit("[cell >> 1u], ~(0xffffu << sh));\n    atomicOr(&ddf");
    reveal_strlit("[cell >> 1u], h);");
    reveal_strlit("}\n");
    reveal_strlit("[cell >> 1u], h);\n}\n");
    assert("{\n    let sh = (cell & 1u) * 16u;\n"@ + ("    "@ + "let h = f32_to_fp16c(v) << sh;"@ + "\n"@) =~= "{\n    let sh = (cell & 1u) * 16u;\n    let h = f32_to_fp16c(v) << sh;\n"@);
    assert("{\n    let sh = (cell & 1u) * 16u;\n    let h = f32_to_fp16c(v) << sh;\n"@ + ("    "@ + "atomicAnd(&ddf"@) =~= "{\n    let sh = (cell & 1u) * 16u;\n    let h = f32_to_fp16c(v) << sh;\n    atomicAnd(&ddf"@);
    assert("[cell >> 1u], ~(0xffffu << sh));"@ + "\n"@ + ("    "@ + "atomicOr(&ddf"@) =~= "[cell >> 1u], ~(0xffffu << sh));\n    atomicOr(&ddf"@);
    assert("[cell >> 1u], h);"@ + "\n"@ + "}\n"@ =~= "[cell >> 1u], h);\n}\n"@);
}

proof fn lemma_packed_seams()
    ensures
        "(cell: u32) -> f32 "@ + "{\n    let sh = (cell & 1u) * 16u;\n    return fp16c_to_f32((atomicLoad(&ddf"@ == "(cell: u32) -> f32 {\n    let sh = (cell & 1u) * 16u;\n    return fp16c_to_f32((atomicLoad(&ddf"@,
        "[cell >> 1u]) >> sh) & 0xffffu);\n}\n"@ + "fn ddf_put_"@ == "[cell >> 1u]) >> sh) & 0xffffu);\n}\nfn ddf_put_"@,
        "(cell: u32, v: f32) "@ + "{\n    let sh = (cell & 1u) * 16u;\n    let h = f32_to_fp16c(v) << sh;\n    atomicAnd(&ddf"@ == "(cell: u32, v: f32) {\n    let sh = (cell & 1u) * 16u;\n    let h = f32_to_fp16c(v) << sh;\n    atomicAnd(&ddf"@,
{
    reveal_strlit("(cell: u32) -> f32 ");
    reveal_strlit("{\n    let sh = (cell & 1u) * 16u;\n    return fp16c_to_f32((atomicLoad(&ddf");
    reveal_strlit("(cell: u32) -> f32 {\n    let sh = (cell & 1u) * 16u;\n    return fp16c_to_f32((atomicLoad(&ddf");
    reveal_strlit("[cell >> 1u]) >> sh) & 0xffffu);\n}\n");
    reveal_strlit("fn ddf_put_");
    reveal_strlit("[cell >> 1u]) >> sh) & 0xffffu);\n}\nfn ddf_put_");
    reveal_strlit("(cell: u32, v: f32) ");
    reveal_strlit("{\n    let sh = (cell & 1u) * 16u;\n    let h = f32_to_fp16c(v) << sh;\n    atomicAnd(&ddf");
    reveal_strlit("(cell: u32, v: f32) {\n    let sh = (cell & 1u) * 16u;\n    let h = f32_to_fp16c(v) << sh;\n    atomicAnd(&ddf");
    assert("(cell: u32) -> f32 "@ + "{\n    let sh = (cell & 1u) * 16u;\n    return fp16c_to_f32((atomicLoad(&ddf"@ =~= "(cell: u32) -> f32 {\n    let sh = (cell & 1u) * 16u;\n    return fp16c_to_f32((atomicLoad(&ddf"@);
    assert("[cell >> 1u]) >> sh) & 0xffffu);\n}\n"@ + "fn ddf_put_"@ =~= "[cell >> 1u]) >> sh) & 0xffffu);\n}\nfn ddf_put_"@);
    assert("(cell: u32, v: f32) "@ + "{\n    let sh = (cell & 1u) * 16u;\n    let h = f32_to_fp16c(v) << sh;\n    atomicAnd(&ddf"@ =~= "(cell: u32, v: f32) {\n    let sh = (cell & 1u) * 16u;\n    let h = f32_to_fp16c(v) << sh;\n    atomicAnd(&ddf"@);
}

proof fn lemma_digits()
    ensures
        decimal(1) == seq!['1'],
        decimal(16) == seq!['1', '6'],
{
    reveal_with_fuel(decimal, 3);
    assert(decimal(1) =~= seq!['1']);
    assert(decimal(16) =~= seq!['1', '6']);
}

proof fn lemma_which_half()
    ensures
        which_half().spelled() == "let sh = (cell & 1u) * 16u;"@,
        own_word().spelled() == "cell >> 1u"@,
        packed_half().spelled() == "let h = f32_to_fp16c(v) << sh;"@,
{
    reveal_with_fuel(Term::spelled, 5);
    lemma_digits();
    lemma_half_literals();
}

#[verifier::spinoff_prover]
proof fn lemma_packed_give(i: nat)
    ensures
        packed_give(i).spelled() == "return fp16c_to_f32((atomicLoad(&ddf"@ + decimal(i as int)
            + "[cell >> 1u]) >> sh) & 0xffffu);"@,
{
    lemma_which_half();
    lemma_packed_give_literals();
    let n = decimal(i as int);
    let shared = Term::Shared(i, direct(own_word()));
    let load = "atomicLoad(&ddf"@;
    assert(load + n + "["@ + "cell >> 1u"@ + "])"@ =~= load + n + ("["@ + "cell >> 1u"@ + "])"@));
    assert(shared.spelled() == load + n + "[cell >> 1u])"@);
    let moved = Term::Joined(Join::Right, direct(shared), direct(Term::Shift));
    assert(Term::Shift.spelled() == "sh"@);
    assert(moved.spelled() == shared.spelled() + " >> "@ + "sh"@);
    assert(load + n + "[cell >> 1u])"@ + " >> "@ + "sh"@ =~= load + n + ("[cell >> 1u])"@ + (" >> "@
        + "sh"@)));
    let grouped = Term::Grouped(direct(moved));
    assert(grouped.spelled() == "("@ + moved.spelled() + ")"@);
    lemma_around("("@, load, n, "[cell >> 1u]) >> sh"@, ")"@);
    let masked = Term::Joined(Join::And, direct(grouped), direct(Term::LowHalf));
    assert(Term::LowHalf.spelled() == "0xffffu"@);
    assert(masked.spelled() == grouped.spelled() + " & "@ + "0xffffu"@);
    let open = "(atomicLoad(&ddf"@;
    assert(open + n + "[cell >> 1u]) >> sh)"@ + " & "@ + "0xffffu"@ =~= open + n + (
    "[cell >> 1u]) >> sh)"@ + (" & "@ + "0xffffu"@)));
    let cast = Term::Cast(Cast::Decoded, direct(masked));
    assert(cast.spelled() == "fp16c_to_f32("@ + masked.spelled() + ")"@);
    lemma_around("fp16c_to_f32("@, open, n, "[cell >> 1u]) >> sh) & 0xffffu"@, ")"@);
    lemma_around(
        "return "@,
        "fp16c_to_f32((atomicLoad(&ddf"@,
        n,
        "[cell >> 1u]) >> sh) & 0xffffu)"@,
        ";"@,
    );
}

#[verifier::spinoff_prover]
proof fn lemma_packed_marks(i: nat)
    ensures
        packed_clear(i).spelled() == "atomicAnd(&ddf"@ + decimal(i as int)
            + "[cell >> 1u], ~(0xffffu << sh));"@,
        packed_set(i).spelled() == "atomicOr(&ddf"@ + decimal(i as int) + "[cell >> 1u], h);"@,
{
    lemma_which_half();
    lemma_packed_put_literals();
    reveal_with_fuel(Term::spelled, 5);
    let n = decimal(i as int);
    let flipped = "~"@ + ("("@ + ("0xffffu"@ + " << "@ + "sh"@) + ")"@);
    let a = "atomicAnd(&ddf"@;
    assert(a + n + "["@ + "cell >> 1u"@ + "], "@ + flipped + ");"@ =~= a + n + ("["@ + "cell >> 1u"@
        + "], "@ + flipped + ");"@));
    let o = "atomicOr(&ddf"@;
    assert(o + n + "["@ + "cell >> 1u"@ + "], "@ + "h"@ + ");"@ =~= o + n + ("["@ + "cell >> 1u"@
        + "], "@ + "h"@ + ");"@));
}

proof fn lemma_two_steps(s: Step, t: Step, before: Seq<char>, behind: Seq<char>)
    ensures
        steps_spelled(seq![s, t], before, behind) == (before + s.spelled() + behind) + (before
            + t.spelled() + behind),
{
    lemma_one_step(s, before, behind);
    assert(seq![s, t].drop_last() =~= seq![s]);
}

proof fn lemma_four_steps(
    s: Step,
    t: Step,
    u: Step,
    v: Step,
    before: Seq<char>,
    behind: Seq<char>,
)
    ensures
        steps_spelled(seq![s, t, u, v], before, behind) == (before + s.spelled() + behind) + (before
            + t.spelled() + behind) + (before + u.spelled() + behind) + (before + v.spelled()
            + behind),
{
    lemma_two_steps(s, t, before, behind);
    assert(seq![s, t, u].drop_last() =~= seq![s, t]);
    assert(seq![s, t, u].last() == u);
    assert(steps_spelled(seq![s, t, u], before, behind) == steps_spelled(seq![s, t], before, behind)
        + (before + u.spelled() + behind));
    assert(seq![s, t, u, v].drop_last() =~= seq![s, t, u]);
    assert(seq![s, t, u, v].last() == v);
}

/// A line that holds a number, behind a text and before another.
proof fn lemma_line(
    p: Seq<char>,
    before: Seq<char>,
    a: Seq<char>,
    n: Seq<char>,
    b: Seq<char>,
    behind: Seq<char>,
    q: Seq<char>,
)
    ensures
        p + (before + (a + n + b) + behind) + q == (p + (before + a)) + n + (b + behind + q),
{
    assert(p + (before + (a + n + b) + behind) + q =~= (p + (before + a)) + n + (b + behind + q));
}

#[verifier::spinoff_prover]
proof fn lemma_packed_get(i: nat)
    ensures
        packed_get(i).spelled()
            == "{\n    let sh = (cell & 1u) * 16u;\n    return fp16c_to_f32((atomicLoad(&ddf"@
            + decimal(i as int) + "[cell >> 1u]) >> sh) & 0xffffu);\n}\n"@,
{
    lemma_which_half();
    lemma_packed_give(i);
    lemma_packed_frames();
    lemma_two_steps(which_half(), packed_give(i), "    "@, "\n"@);
    let first = "    "@ + "let sh = (cell & 1u) * 16u;"@ + "\n"@;
    let second = "    "@ + packed_give(i).spelled() + "\n"@;
    assert("{\n"@ + (first + second) + "}\n"@ =~= ("{\n"@ + first) + second + "}\n"@);
    lemma_line(
        "{\n    let sh = (cell & 1u) * 16u;\n"@,
        "    "@,
        "return fp16c_to_f32((atomicLoad(&ddf"@,
        decimal(i as int),
        "[cell >> 1u]) >> sh) & 0xffffu);"@,
        "\n"@,
        "}\n"@,
    );
}

#[verifier::spinoff_prover]
proof fn lemma_packed_put(i: nat)
    ensures
        packed_put(i).spelled()
            == "{\n    let sh = (cell & 1u) * 16u;\n    let h = f32_to_fp16c(v) << sh;\n    atomicAnd(&ddf"@
            + decimal(i as int) + "[cell >> 1u], ~(0xffffu << sh));\n    atomicOr(&ddf"@ + decimal(
            i as int,
        ) + "[cell >> 1u], h);\n}\n"@,
{
    lemma_which_half();
    lemma_packed_marks(i);
    lemma_packed_frames();
    lemma_packed_put_frames();
    lemma_four_steps(which_half(), packed_half(), packed_clear(i), packed_set(i), "    "@, "\n"@);
    let n = decimal(i as int);
    let l1 = "    "@ + "let sh = (cell & 1u) * 16u;"@ + "\n"@;
    let l2 = "    "@ + "let h = f32_to_fp16c(v) << sh;"@ + "\n"@;
    let l3 = "    "@ + packed_clear(i).spelled() + "\n"@;
    let l4 = "    "@ + packed_set(i).spelled() + "\n"@;
    let head = "{\n    let sh = (cell & 1u) * 16u;\n    let h = f32_to_fp16c(v) << sh;\n"@;
    assert("{\n"@ + (l1 + l2 + l3 + l4) + "}\n"@ =~= (("{\n"@ + l1) + l2) + l3 + (l4 + "}\n"@));
    assert(packed_put(i).spelled() == head + l3 + (l4 + "}\n"@));
    lemma_line(
        head,
        "    "@,
        "atomicAnd(&ddf"@,
        n,
        "[cell >> 1u], ~(0xffffu << sh));"@,
        "\n"@,
        l4 + "}\n"@,
    );
    let open = "{\n    let sh = (cell & 1u) * 16u;\n    let h = f32_to_fp16c(v) << sh;\n    atomicAnd(&ddf"@;
    let mid = "[cell >> 1u], ~(0xffffu << sh));"@ + "\n"@;
    assert(mid + (l4 + "}\n"@) =~= mid + l4 + "}\n"@);
    lemma_line(mid, "    "@, "atomicOr(&ddf"@, n, "[cell >> 1u], h);"@, "\n"@, "}\n"@);
    let m = "[cell >> 1u], ~(0xffffu << sh));\n    atomicOr(&ddf"@;
    let end = "[cell >> 1u], h);\n}\n"@;
    assert(packed_put(i).spelled() == open + n + (m + n + end));
    lemma_join(open + n, m, n, end);
}

#[verifier::spinoff_prover]
#[verifier::rlimit(60)]
proof fn lemma_packed(i: nat)
    ensures
        packed_accessors(i as int) == pair_spelled(i, packed_get(i), packed_put(i)),
{
    reveal(packed_accessors);
    lemma_packed_get(i);
    lemma_packed_put(i);
    lemma_packed_seams();
    let n = decimal(i as int);
    let m = "[cell >> 1u], ~(0xffffu << sh));\n    atomicOr(&ddf"@;
    let end = "[cell >> 1u], h);\n}\n"@;
    let open = "{\n    let sh = (cell & 1u) * 16u;\n    let h = f32_to_fp16c(v) << sh;\n    atomicAnd(&ddf"@;
    lemma_join(open + n, m, n, end);
    assert(open + n + m + n + end == open + n + (m + n + end));
    lemma_pair(
        n,
        ("fn ddf_get_"@, "(cell: u32) -> f32 "@, "fn ddf_put_"@, "(cell: u32, v: f32) "@),
        "{\n    let sh = (cell & 1u) * 16u;\n    return fp16c_to_f32((atomicLoad(&ddf"@,
        "[cell >> 1u]) >> sh) & 0xffffu);\n}\n"@,
        open,
        m + n + end,
    );
    let front = "fn ddf_get_"@ + n
        + "(cell: u32) -> f32 {\n    let sh = (cell & 1u) * 16u;\n    return fp16c_to_f32((atomicLoad(&ddf"@
        + n + "[cell >> 1u]) >> sh) & 0xffffu);\n}\nfn ddf_put_"@ + n
        + "(cell: u32, v: f32) {\n    let sh = (cell & 1u) * 16u;\n    let h = f32_to_fp16c(v) << sh;\n    atomicAnd(&ddf"@
        + n;
    lemma_join(front, m, n, end);
}

/// Whether a number written of a cell is what is read of it, as far as the layout keeps it,
/// while another cell and the other directions notice nothing.
pub open spec fn reads_back(
    i: nat,
    layout: DdfLayout,
    codec: Codec,
    bodies: (Body, Body),
    buffers: Seq<Seq<u32>>,
    cell: u32,
    other: u32,
    value: u32,
) -> bool {
    let after = bodies.1.written(codec, buffers, cell, value);
    &&& after.len() == buffers.len()
    &&& after[i as int].len() == buffers[i as int].len()
    &&& forall|j: int| 0 <= j < buffers.len() && j != i ==> #[trigger] after[j] == buffers[j]
    &&& bodies.0.read(codec, after, cell) == kept(codec, layout, value)
    &&& other != cell ==> bodies.0.read(codec, after, other) == bodies.0.read(codec, buffers, other)
}

proof fn lemma_plain_runs(i: nat, codec: Codec, buffers: Seq<Seq<u32>>, cell: u32, value: u32)
    ensures
        plain_get(i).read(codec, buffers, cell) == buffers[i as int][cell as int],
        plain_put(i).written(codec, buffers, cell, value) == with_element(
            buffers,
            i as int,
            cell as int,
            value,
        ),
{
    reveal_with_fuel(Term::value, 3);
    lemma_one_run(
        codec,
        Frame { cell, value: 0, shift: 0, half: 0, buffers, result: 0 },
        plain_get(i).steps[0],
    );
    lemma_one_run(
        codec,
        Frame { cell, value, shift: 0, half: 0, buffers, result: 0 },
        plain_put(i).steps[0],
    );
}

proof fn lemma_short_runs(i: nat, codec: Codec, buffers: Seq<Seq<u32>>, cell: u32, value: u32)
    requires
        (codec.encode)(value) <= 0xffff,
    ensures
        short_get(i).read(codec, buffers, cell) == (codec.decode)(buffers[i as int][cell as int]),
        short_put(i).written(codec, buffers, cell, value) == with_element(
            buffers,
            i as int,
            cell as int,
            (codec.encode)(value),
        ),
{
    reveal_with_fuel(Term::value, 4);
    lemma_one_run(
        codec,
        Frame { cell, value: 0, shift: 0, half: 0, buffers, result: 0 },
        short_get(i).steps[0],
    );
    lemma_one_run(
        codec,
        Frame { cell, value, shift: 0, half: 0, buffers, result: 0 },
        short_put(i).steps[0],
    );
}

/// The half of a word that a cell has, and the word after another half is put there.
spec fn half_of(word: u32, cell: u32) -> u32 {
    (word >> ((cell & 1) * 16) as u32) & 0xffff
}

spec fn word_with(word: u32, cell: u32, half: u32) -> u32 {
    (word & !(0xffffu32 << ((cell & 1) * 16) as u32)) | (half << ((cell & 1) * 16) as u32)
}

proof fn lemma_shift(cell: u32)
    ensures
        (((cell & 1) * 16) % 0x1_0000_0000) as u32 == ((cell & 1) * 16) as u32,
        cell >> 1 == cell / 2,
        cell & 1 == cell % 2,
{
    assert(cell & 1 == cell % 2 && cell >> 1 == cell / 2) by (bit_vector);
}

proof fn lemma_packed_reads(i: nat, codec: Codec, buffers: Seq<Seq<u32>>, cell: u32)
    ensures
        packed_get(i).read(codec, buffers, cell) == (codec.decode)(
            half_of(buffers[i as int][(cell / 2) as int], cell),
        ),
{
    let f = Frame { cell, value: 0, shift: 0, half: 0, buffers, result: 0 };
    reveal_with_fuel(Term::value, 7);
    lemma_shift(cell);
    lemma_one_run(codec, f, which_half());
    let steps = packed_get(i).steps;
    assert(steps.drop_last() =~= seq![which_half()]);
    assert(steps.last() == packed_give(i));
    assert(after_steps(codec, f, steps) == packed_give(i).after(codec, which_half().after(codec, f)));
}

proof fn lemma_packed_writes(
    i: nat,
    codec: Codec,
    buffers: Seq<Seq<u32>>,
    cell: u32,
    value: u32,
)
    requires
        i < buffers.len(),
        cell / 2 < buffers[i as int].len(),
    ensures
        packed_put(i).written(codec, buffers, cell, value) == with_element(
            buffers,
            i as int,
            (cell / 2) as int,
            word_with(buffers[i as int][(cell / 2) as int], cell, (codec.encode)(value)),
        ),
{
    let f = Frame { cell, value, shift: 0, half: 0, buffers, result: 0 };
    reveal_with_fuel(Term::value, 5);
    lemma_shift(cell);
    lemma_one_run(codec, f, which_half());
    let f1 = which_half().after(codec, f);
    let f2 = packed_half().after(codec, f1);
    let f3 = packed_clear(i).after(codec, f2);
    let f4 = packed_set(i).after(codec, f3);
    let s2 = seq![which_half(), packed_half()];
    let s3 = seq![which_half(), packed_half(), packed_clear(i)];
    let s4 = packed_put(i).steps;
    assert(s2.drop_last() =~= seq![which_half()]);
    assert(s2.last() == packed_half());
    assert(after_steps(codec, f, s2) == f2);
    assert(s3.drop_last() =~= s2);
    assert(s3.last() == packed_clear(i));
    assert(after_steps(codec, f, s3) == f3);
    assert(s4.drop_last() =~= s3);
    assert(s4.last() == packed_set(i));
    assert(after_steps(codec, f, s4) == f4);
    let at = (cell / 2) as int;
    let w = buffers[i as int][at];
    assert(f3.buffers[i as int][at] == w & !(0xffffu32 << ((cell & 1) * 16) as u32));
    assert(f4.buffers =~= with_element(
        buffers,
        i as int,
        at,
        word_with(w, cell, (codec.encode)(value)),
    )) by {
        assert(f4.buffers[i as int] =~= buffers[i as int].update(
            at,
            word_with(w, cell, (codec.encode)(value)),
        ));
    }
}

proof fn lemma_halves(word: u32, cell: u32, other: u32, half: u32)
    requires
        half <= 0xffff,
    ensures
        half_of(word_with(word, cell, half), cell) == half,
        cell % 2 != other % 2 ==> half_of(word_with(word, cell, half), other) == half_of(
            word,
            other,
        ),
{
    let a = ((cell & 1) * 16) as u32;
    let b = ((other & 1) * 16) as u32;
    lemma_shift(cell);
    lemma_shift(other);
    assert(a == 0 || a == 16);
    assert(b == 0 || b == 16);
    assert((((word & !(0xffffu32 << a)) | (half << a)) >> a) & 0xffff == half) by (bit_vector)
        requires
            half <= 0xffff,
            a == 0 || a == 16,
    ;
    if cell % 2 != other % 2 {
        assert((((word & !(0xffffu32 << a)) | (half << a)) >> b) & 0xffff == (word >> b) & 0xffff)
            by (bit_vector)
            requires
                half <= 0xffff,
                (a == 0 && b == 16) || (a == 16 && b == 0),
        ;
    }
}

/// The generated accessors of a direction are a reader and a writer of it, under the names
/// that the transport calls them by. Whatever the layout, what is written of a cell is what
/// is read of it, to the storage codec's precision; every other cell reads as before, and
/// no other direction's buffer is touched.
pub proof fn the_accessors_read_back_what_they_write(
    i: nat,
    layout: DdfLayout,
    codec: Codec,
    buffers: Seq<Seq<u32>>,
    cells: int,
)
    requires
        i < buffers.len(),
        0 <= cells,
        buffers[i as int].len() >= elements(layout, cells),
        forall|v: u32| #[trigger] (codec.encode)(v) <= 0xffff,
    ensures
        exists|get: Body, put: Body|
            {
                &&& accessor(i as int, layout) == #[trigger] pair_spelled(i, get, put)
                &&& forall|cell: u32, other: u32, value: u32|
                    cell < cells && other < cells ==> #[trigger] reads_back(
                        i,
                        layout,
                        codec,
                        (get, put),
                        buffers,
                        cell,
                        other,
                        value,
                    )
            },
{
    let get = get_of(i, layout);
    let put = put_of(i, layout);
    match layout {
        DdfLayout::Fp32 => lemma_plain(i),
        DdfLayout::Fp16cPerCell => lemma_short(i),
        DdfLayout::Fp16cPacked => lemma_packed(i),
    }
    assert forall|cell: u32, other: u32, value: u32| cell < cells && other < cells implies #[trigger]
        reads_back(i, layout, codec, (get, put), buffers, cell, other, value) by {
        let after = put.written(codec, buffers, cell, value);
        assert((codec.encode)(value) <= 0xffff);
        match layout {
            DdfLayout::Fp32 => {
                lemma_plain_runs(i, codec, buffers, cell, value);
                lemma_plain_runs(i, codec, buffers, other, value);
                lemma_plain_runs(i, codec, after, cell, value);
                lemma_plain_runs(i, codec, after, other, value);
            },
            DdfLayout::Fp16cPerCell => {
                lemma_short_runs(i, codec, buffers, cell, value);
                lemma_short_runs(i, codec, buffers, other, value);
                lemma_short_runs(i, codec, after, cell, value);
                lemma_short_runs(i, codec, after, other, value);
            },
            DdfLayout::Fp16cPacked => {
                lemma_packed_writes(i, codec, buffers, cell, value);
                lemma_packed_reads(i, codec, buffers, other);
                lemma_packed_reads(i, codec, after, cell);
                lemma_packed_reads(i, codec, after, other);
                lemma_halves(
                    buffers[i as int][(cell / 2) as int],
                    cell,
                    other,
                    (codec.encode)(value),
                );
            },
        }
    }
    assert(accessor(i as int, layout) == pair_spelled(i, get, put));
}

/// The line that tells the shader a flag's bit stands in the generated constants.
pub open spec fn tells_flag(text: Seq<char>, name: Seq<char>, bit: u8) -> bool {
    exists|before: Seq<char>, behind: Seq<char>|
        text == #[trigger] (before + ("const FLAG_"@ + name + ": u32 = "@ + decimal(bit as int)
            + "u;\n"@) + behind)
}

/// The shader is told of each flag under its own name, with its own bit.
pub proof fn the_shader_knows_the_flags()
    ensures
        tells_flag(flag_text(), "SOLID"@, flags::SOLID),
        tells_flag(flag_text(), "SOLID_BOUNDARY"@, flags::SOLID_BOUNDARY),
        tells_flag(flag_text(), "INLET"@, flags::INLET),
        tells_flag(flag_text(), "OUTLET"@, flags::OUTLET),
        tells_flag(flag_text(), "SPONGE"@, flags::SPONGE),
        tells_flag(flag_text(), "EQUILIBRIUM"@, flags::EQUILIBRIUM),
{
    reveal(flag_line);
    let h = "// GENERATED from ad_gpu::types::flags\n"@;
    let a = flag_line("SOLID"@, flags::SOLID as int);
    let b = flag_line("SOLID_BOUNDARY"@, flags::SOLID_BOUNDARY as int);
    let c = flag_line("INLET"@, flags::INLET as int);
    let d = flag_line("OUTLET"@, flags::OUTLET as int);
    let e = flag_line("SPONGE"@, flags::SPONGE as int);
    let f = flag_line("EQUILIBRIUM"@, flags::EQUILIBRIUM as int);
    assert(flag_text() =~= h + a + (b + c + d + e + f));
    assert(flag_text() =~= (h + a) + b + (c + d + e + f));
    assert(flag_text() =~= (h + a + b) + c + (d + e + f));
    assert(flag_text() =~= (h + a + b + c) + d + (e + f));
    assert(flag_text() =~= (h + a + b + c + d) + e + f);
    assert(flag_text() =~= (h + a + b + c + d + e) + f + Seq::empty());
}

} // verus!
