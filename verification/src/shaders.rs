//! Generated WGSL: the DDF bindings and the Esoteric Pull load/store bodies.
//!
//! # Why these are generated rather than written by hand
//!
//! WGSL has no arrays of bindings, so the `q` structure-of-arrays DDF buffers
//! must be `q` separate global declarations, and any access has to name one of
//! them literally. Written by hand that is 19 (or 27) near-identical blocks
//! whose only content is index arithmetic, precisely the sort of thing that goes
//! wrong once and then produces plausible-looking physics forever.
//!
//! Worse, a `switch` over the direction index would be *divergent*: bounce-back
//! flips which of a pair's two slots a lane reads, so neighbouring lanes want
//! different buffers. Unrolling the pair loop turns it into a two-way branch
//! that is uniform everywhere except at a wall.
//!
//! # How the addressing is derived
//!
//! Not by restating the rule, but by *asking* [`EsotericPull`]: [`probe`] runs
//! it with a sentinel cell count, so that a slot becomes an invertible encoding
//! of `(direction, which cell)`, and reads the answer back out.
use vstd::prelude::*;
use vstd::string::StringExecFns;
use crate::config::SolverConfig;
use crate::flags;
use crate::lattice::{load_addr, opposite, pair_first, store_addr, Addr, EsotericPull, VelocitySet};
use crate::precision::DdfPrecision;
use crate::text::{decimal, decimal_string};

verus! {

/// Sentinel cell count. Large enough that `dir * SENTINEL + cell` is uniquely
/// decodable for the two cell indices we probe with (0 = this cell,
/// 1 = the neighbour), and small enough not to overflow.
pub const SENTINEL: u64 = 0x10_0000;

/// The address of direction `i`, for a load or for a store.
pub open spec fn addr(i: int, odd: bool, store: bool) -> Addr {
    if store {
        store_addr(i, odd)
    } else {
        load_addr(i, odd)
    }
}

/// Ask [`EsotericPull`] where direction `i` lives, for both step parities.
///
/// Public because it is the *only* sanctioned way to learn the transport
/// addressing, and a second backend must not re-derive it.
pub fn probe(q: usize, i: usize, odd: bool, store: bool) -> (a: Addr)
    requires
        q == 19 || q == 27,
        i < q,
    ensures
        a == addr(i as int, odd, store),
{
    let ep: EsotericPull = EsotericPull::new(SENTINEL, q);
    assert(ep.cells * ep.q <= 0x10_0000 * 27) by (nonlinear_arith)
        requires
            ep.cells == 0x10_0000,
            ep.q <= 27,
    ;
    // The neighbour a pair asks for is the one its even member points at.
    let asked: usize = if i == 0 {
        0
    } else {
        opposite(pair_first(i))
    };
    let index: u64 = if store {
        ep.store_slot(0, i, odd, 1)
    } else {
        ep.load_slot(0, i, odd, 1)
    };
    let dir: usize = (index / SENTINEL) as usize;
    let cell: u64 = index % SENTINEL;
    Addr {
        dir,
        neighbour_dir: if cell == 1 {
            Some(asked)
        } else {
            None
        },
    }
}

/// How the DDF buffers are addressed, which is not implied by the precision
/// alone: FP16C has two layouts over identical bytes.
///
/// Chosen by the allocator from the device's features, and carried here rather
/// than re-derived, because the allocator and the shader disagreeing about it is
/// a silent factor-of-two indexing error rather than a compile failure.
#[derive(Clone, Copy, Debug, PartialEq, Eq, Structural)]
pub enum DdfLayout {
    /// One `u32` per cell, holding the population bit-for-bit.
    Fp32,
    /// One `u16` per cell. Needs 16-bit storage; the store is a plain
    /// unsynchronised 16-bit write.
    Fp16cPerCell,
    /// Two cells packed into one `u32`, for adapters without 16-bit storage.
    /// One word has two writers, so every store is an atomic read-modify-write.
    Fp16cPacked,
}

impl DdfLayout {
    /// The layout the allocator chose, given the precision and whether it managed
    /// to give every cell its own element.
    pub fn of(precision: DdfPrecision, fp16c_per_cell: bool) -> (l: Self)
        ensures
            l == (match (precision, fp16c_per_cell) {
                (DdfPrecision::Fp32, _) => DdfLayout::Fp32,
                (DdfPrecision::Fp16c, true) => DdfLayout::Fp16cPerCell,
                (DdfPrecision::Fp16c, false) => DdfLayout::Fp16cPacked,
            }),
    {
        match (precision, fp16c_per_cell) {
            (DdfPrecision::Fp32, _) => DdfLayout::Fp32,
            (DdfPrecision::Fp16c, true) => DdfLayout::Fp16cPerCell,
            (DdfPrecision::Fp16c, false) => DdfLayout::Fp16cPacked,
        }
    }

    /// The preprocessor name of a layout.
    pub open spec fn define(self) -> Seq<char> {
        match self {
            DdfLayout::Fp32 => "DDF_LAYOUT_FP32"@,
            DdfLayout::Fp16cPerCell => "DDF_LAYOUT_FP16C_U16"@,
            DdfLayout::Fp16cPacked => "DDF_LAYOUT_FP16C_PACKED"@,
        }
    }

    /// A name for the preprocessor, so its cache key distinguishes two builds
    /// that differ only in storage layout.
    pub fn shader_define(self) -> (s: &'static str)
        ensures
            s@ == self.define(),
    {
        match self {
            DdfLayout::Fp32 => "DDF_LAYOUT_FP32",
            DdfLayout::Fp16cPerCell => "DDF_LAYOUT_FP16C_U16",
            DdfLayout::Fp16cPacked => "DDF_LAYOUT_FP16C_PACKED",
        }
    }
}

/// The directives the generated bindings need, if any.
pub open spec fn directives(layout: DdfLayout) -> Seq<char> {
    match layout {
        DdfLayout::Fp16cPerCell => "enable wgpu_int16;\n"@,
        _ => ""@,
    }
}

/// The `enable` directives the generated bindings need, if any.
///
/// WGSL requires every `enable` to precede every declaration in the module, so
/// this cannot live next to the bindings it belongs to; [`generated_files`] puts
/// it at the very top of the first file instead.
pub fn enable_directives(layout: DdfLayout) -> (s: &'static str)
    ensures
        s@ == directives(layout),
{
    match layout {
        DdfLayout::Fp16cPerCell => "enable wgpu_int16;\n",
        _ => "",
    }
}

/// The comment over the accessors of full-precision storage.
pub const FP32_NOTE: &'static str = r#"
// FP32 storage. The value stored is still the *shifted* population
// g = f - w; see ad_solver::precision for why that matters even when
// the storage is exact.
"#;

/// The comment over the accessors of one 16-bit element per cell.
pub const FP16C_NOTE: &'static str = r#"
// FP16C storage, one u16 per cell (ad_gpu::ddf allocates two bytes per
// cell per direction). Nothing is shared between invocations, so the
// store is a plain 16-bit write and there is no synchronisation at all.
//
// The element is u16 and not f16 because the two are not
// interchangeable here. FP16C is 1 sign / 4 exponent / 11 mantissa, so
// an encoded value is a bit pattern, not a binary16 number: everything
// in [1.5, 2) encodes as what binary16 would read as a NaN. WGSL offers
// no bitcast between f16 and u32 to launder the bits through, whereas a
// u16 carries all sixteen of them exactly. `enable wgpu_int16;` is
// emitted at the top of the module by ad_solver::shaders.
//
// The value stored is the *shifted* population g = f - w, encoded by the
// codec ad_solver::precision emits. Shifting is what makes 16-bit
// storage viable; see that module for why the order of operations that
// produces g must not be rearranged.
"#;

/// The comment over the accessors of two cells per word.
pub const PACKED_NOTE: &'static str = r#"
// FP16C fallback for adapters without 16-bit storage (wgpu SHADER_I16).
// Two *cells* share one u32, so the word straddling cells 2k and 2k+1 is
// written by two different invocations.
//
// Esoteric Pull guarantees each 16-bit half is owned by exactly one cell
// for the whole step - a cell reads and writes the same address, and the
// two cells sharing a link swap which slot they own each step - so the
// halves never race with each other. Only the read-modify-write of the
// containing word does. atomicAnd with a mask that leaves the other half
// untouched, followed by atomicOr of our own bits, is therefore correct
// under every interleaving: neither invocation ever touches a bit the
// other owns.
//
// Correct, but 2q atomics per cell per step: measurably slower than FP32
// despite moving half the bytes. This path exists so an adapter that
// cannot address 16 bits still runs, not because it is a good idea.
"#;

/// The comment over the transport bodies.
pub const TRANSPORT_NOTE: &'static str = r#"// GENERATED by ad_solver::shaders::transport - do not edit.
//
// Addresses come from ad_gpu::lattice::EsotericPull itself (see the module
// docs); this file is a transcription of what that code returns, not a
// re-derivation of it.
//
// `mask` bit i set means the upstream neighbour of direction i is solid, in
// which case the *load* uses the opposite step parity. That reads back the
// population this cell pushed into the wall link last step, which is exactly
// halfway bounce-back - at zero extra memory traffic and with a two-way
// branch that is uniform everywhere except at a wall.

"#;

/// The declaration of the buffer of direction `i`.
#[verifier::opaque]
pub open spec fn declaration(i: int, element: Seq<char>) -> Seq<char> {
    "@group(1) @binding("@ + decimal(i) + ") var<storage, read_write> ddf"@ + decimal(i) + ": array<"@ + element + ">;\n"@
}

#[verifier::rlimit(40)]
fn push_declaration(s: &mut String, i: usize, element: &str)
    ensures
        final(s)@ == old(s)@ + declaration(i as int, element@),
{
    s.append("@group(1) @binding(");
    s.append(decimal_string(i as u64).as_str());
    s.append(") var<storage, read_write> ddf");
    s.append(decimal_string(i as u64).as_str());
    s.append(": array<");
    s.append(element);
    s.append(">;\n");
    proof {
        reveal(declaration);
    }
    assert(s@ =~= old(s)@ + declaration(i as int, element@));
}

/// The accessors of direction `i` in full precision.
#[verifier::opaque]
pub open spec fn fp32_accessors(i: int) -> Seq<char> {
    "fn ddf_get_"@ + decimal(i) + "(cell: u32) -> f32 { return bitcast<f32>(ddf"@ + decimal(i) + "[cell]); }\nfn ddf_put_"@ + decimal(i) + "(cell: u32, v: f32) { ddf"@ + decimal(i) + "[cell] = bitcast<u32>(v); }\n"@
}

#[verifier::rlimit(40)]
fn push_fp32_accessors(s: &mut String, i: usize)
    ensures
        final(s)@ == old(s)@ + fp32_accessors(i as int),
{
    s.append("fn ddf_get_");
    s.append(decimal_string(i as u64).as_str());
    s.append("(cell: u32) -> f32 { return bitcast<f32>(ddf");
    s.append(decimal_string(i as u64).as_str());
    s.append("[cell]); }\nfn ddf_put_");
    s.append(decimal_string(i as u64).as_str());
    s.append("(cell: u32, v: f32) { ddf");
    s.append(decimal_string(i as u64).as_str());
    s.append("[cell] = bitcast<u32>(v); }\n");
    proof {
        reveal(fp32_accessors);
    }
    assert(s@ =~= old(s)@ + fp32_accessors(i as int));
}

/// The accessors of direction `i` with one 16-bit element per cell.
#[verifier::opaque]
pub open spec fn fp16c_accessors(i: int) -> Seq<char> {
    "fn ddf_get_"@ + decimal(i) + "(cell: u32) -> f32 { return fp16c_to_f32(u32(ddf"@ + decimal(i) + "[cell])); }\nfn ddf_put_"@ + decimal(i) + "(cell: u32, v: f32) { ddf"@ + decimal(i) + "[cell] = u16(f32_to_fp16c(v)); }\n"@
}

#[verifier::rlimit(40)]
fn push_fp16c_accessors(s: &mut String, i: usize)
    ensures
        final(s)@ == old(s)@ + fp16c_accessors(i as int),
{
    s.append("fn ddf_get_");
    s.append(decimal_string(i as u64).as_str());
    s.append("(cell: u32) -> f32 { return fp16c_to_f32(u32(ddf");
    s.append(decimal_string(i as u64).as_str());
    s.append("[cell])); }\nfn ddf_put_");
    s.append(decimal_string(i as u64).as_str());
    s.append("(cell: u32, v: f32) { ddf");
    s.append(decimal_string(i as u64).as_str());
    s.append("[cell] = u16(f32_to_fp16c(v)); }\n");
    proof {
        reveal(fp16c_accessors);
    }
    assert(s@ =~= old(s)@ + fp16c_accessors(i as int));
}

/// The accessors of direction `i` with two cells per word.
#[verifier::opaque]
pub open spec fn packed_accessors(i: int) -> Seq<char> {
    "fn ddf_get_"@ + decimal(i) + "(cell: u32) -> f32 {\n    let sh = (cell & 1u) * 16u;\n    return fp16c_to_f32((atomicLoad(&ddf"@ + decimal(i) + "[cell >> 1u]) >> sh) & 0xffffu);\n}\nfn ddf_put_"@ + decimal(i) + "(cell: u32, v: f32) {\n    let sh = (cell & 1u) * 16u;\n    let h = f32_to_fp16c(v) << sh;\n    atomicAnd(&ddf"@ + decimal(i) + "[cell >> 1u], ~(0xffffu << sh));\n    atomicOr(&ddf"@ + decimal(i) + "[cell >> 1u], h);\n}\n"@
}

#[verifier::rlimit(40)]
fn push_packed_accessors(s: &mut String, i: usize)
    ensures
        final(s)@ == old(s)@ + packed_accessors(i as int),
{
    s.append("fn ddf_get_");
    s.append(decimal_string(i as u64).as_str());
    s.append("(cell: u32) -> f32 {\n    let sh = (cell & 1u) * 16u;\n    return fp16c_to_f32((atomicLoad(&ddf");
    s.append(decimal_string(i as u64).as_str());
    s.append("[cell >> 1u]) >> sh) & 0xffffu);\n}\nfn ddf_put_");
    s.append(decimal_string(i as u64).as_str());
    s.append("(cell: u32, v: f32) {\n    let sh = (cell & 1u) * 16u;\n    let h = f32_to_fp16c(v) << sh;\n    atomicAnd(&ddf");
    s.append(decimal_string(i as u64).as_str());
    s.append("[cell >> 1u], ~(0xffffu << sh));\n    atomicOr(&ddf");
    s.append(decimal_string(i as u64).as_str());
    s.append("[cell >> 1u], h);\n}\n");
    proof {
        reveal(packed_accessors);
    }
    assert(s@ =~= old(s)@ + packed_accessors(i as int));
}

/// What the shader calls the cell that an address is indexed by.
pub open spec fn index_name(a: Addr) -> Seq<char> {
    if a.neighbour_dir is Some {
        "nb"@
    } else {
        "cell"@
    }
}

fn index_str(a: Addr) -> (s: &'static str)
    ensures
        s@ == index_name(a),
{
    if a.neighbour_dir.is_some() {
        "nb"
    } else {
        "cell"
    }
}

/// The load of direction `d` from its address for one parity.
#[verifier::opaque]
pub open spec fn load_half(d: int, odd: bool) -> Seq<char> {
    "(*g)["@ + decimal(d) + "] = ddf_get_"@ + decimal(load_addr(d, odd).dir as int) + "("@ + index_name(load_addr(d, odd)) + "); }"@
}

#[verifier::rlimit(40)]
fn push_load_half(s: &mut String, d: usize, odd: bool, a: Addr)
    requires
        a == load_addr(d as int, odd),
    ensures
        final(s)@ == old(s)@ + load_half(d as int, odd),
{
    s.append("(*g)[");
    s.append(decimal_string(d as u64).as_str());
    s.append("] = ddf_get_");
    s.append(decimal_string(a.dir as u64).as_str());
    s.append("(");
    s.append(index_str(a));
    s.append("); }");
    proof {
        reveal(load_half);
    }
    assert(s@ =~= old(s)@ + load_half(d as int, odd));
}

/// The load of direction `d`, from the address of the parity that the mask leaves.
#[verifier::opaque]
pub open spec fn load_line(d: int) -> Seq<char> {
    "        if (odd != (((mask >> "@ + decimal(d) + "u) & 1u) != 0u)) { "@ + load_half(d, true)
        + " else { "@ + load_half(d, false) + "\n"@
}

#[verifier::rlimit(40)]
fn push_load_line(s: &mut String, d: usize, e: Addr, o: Addr)
    requires
        o == load_addr(d as int, true),
        e == load_addr(d as int, false),
    ensures
        final(s)@ == old(s)@ + load_line(d as int),
{
    s.append("        if (odd != (((mask >> ");
    s.append(decimal_string(d as u64).as_str());
    s.append("u) & 1u) != 0u)) { ");
    push_load_half(s, d, true, o);
    s.append(" else { ");
    push_load_half(s, d, false, e);
    s.append("\n");
    proof {
        reveal(load_line);
    }
    assert(s@ =~= old(s)@ + load_line(d as int));
}

/// The opening of the block of the pair that starts at `i`.
#[verifier::opaque]
pub open spec fn pair_open(i: int, nd: int) -> Seq<char> {
    "    { // pair ("@ + decimal(i) + ", "@ + decimal(i + 1) + ")\n        let nb = neighbour_index(c, "@ + decimal(nd) + "u);\n"@
}

#[verifier::rlimit(40)]
fn push_pair_open(s: &mut String, i: usize, nd: usize)
    requires
        i < 27,
    ensures
        final(s)@ == old(s)@ + pair_open(i as int, nd as int),
{
    s.append("    { // pair (");
    s.append(decimal_string(i as u64).as_str());
    s.append(", ");
    s.append(decimal_string((i + 1) as u64).as_str());
    s.append(")\n        let nb = neighbour_index(c, ");
    s.append(decimal_string(nd as u64).as_str());
    s.append("u);\n");
    proof {
        reveal(pair_open);
    }
    assert(s@ =~= old(s)@ + pair_open(i as int, nd as int));
}

/// One store: direction `i` into the slot of a cell in a direction's plane.
#[verifier::opaque]
pub open spec fn put(dir: int, cell: Seq<char>, i: int) -> Seq<char> {
    "ddf_put_"@ + decimal(dir) + "("@ + cell + ", (*g)["@ + decimal(i) + "]); "@
}

#[verifier::rlimit(40)]
fn push_put(s: &mut String, dir: usize, cell: &str, i: usize)
    ensures
        final(s)@ == old(s)@ + put(dir as int, cell@, i as int),
{
    s.append("ddf_put_");
    s.append(decimal_string(dir as u64).as_str());
    s.append("(");
    s.append(cell);
    s.append(", (*g)[");
    s.append(decimal_string(i as u64).as_str());
    s.append("]); ");
    proof {
        reveal(put);
    }
    assert(s@ =~= old(s)@ + put(dir as int, cell@, i as int));
}

/// The stores of the pair that starts at `i`, on a step of one parity.
#[verifier::opaque]
pub open spec fn store_half(i: int, odd: bool) -> Seq<char> {
    put(store_addr(i, odd).dir as int, "cell"@, i) + put(
        store_addr(i + 1, odd).dir as int,
        "nb"@,
        i + 1,
    ) + "}"@
}

fn push_store_half(s: &mut String, i: usize, odd: bool, a: Addr, b: Addr)
    requires
        i < 27,
        a == store_addr(i as int, odd),
        b == store_addr(i + 1, odd),
    ensures
        final(s)@ == old(s)@ + store_half(i as int, odd),
{
    push_put(s, a.dir, "cell", i);
    push_put(s, b.dir, "nb", i + 1);
    s.append("}");
    proof {
        reveal(store_half);
    }
    assert(s@ =~= old(s)@ + store_half(i as int, odd));
}

/// The stores of the pair that starts at `i`.
#[verifier::opaque]
pub open spec fn store_line(i: int) -> Seq<char> {
    "        if (odd) { "@ + store_half(i, true) + " else { "@ + store_half(i, false) + "\n"@
}

fn push_store_line(s: &mut String, i: usize, even: Addr, odd_a: Addr, even_b: Addr, odd_b: Addr)
    requires
        i < 27,
        even == store_addr(i as int, false),
        odd_a == store_addr(i as int, true),
        even_b == store_addr(i + 1, false),
        odd_b == store_addr(i + 1, true),
    ensures
        final(s)@ == old(s)@ + store_line(i as int),
{
    s.append("        if (odd) { ");
    push_store_half(s, i, true, odd_a, odd_b);
    s.append(" else { ");
    push_store_half(s, i, false, even, even_b);
    s.append("\n");
    proof {
        reveal(store_line);
    }
    assert(s@ =~= old(s)@ + store_line(i as int));
}

/// A flag as a shader constant.
#[verifier::opaque]
pub open spec fn flag_line(name: Seq<char>, value: int) -> Seq<char> {
    "const FLAG_"@ + name + ": u32 = "@ + decimal(value) + "u;\n"@
}

#[verifier::rlimit(40)]
fn push_flag_line(s: &mut String, name: &str, value: u8)
    ensures
        final(s)@ == old(s)@ + flag_line(name@, value as int),
{
    s.append("const FLAG_");
    s.append(name);
    s.append(": u32 = ");
    s.append(decimal_string(value as u64).as_str());
    s.append("u;\n");
    proof {
        reveal(flag_line);
    }
    assert(s@ =~= old(s)@ + flag_line(name@, value as int));
}

/// The declarations of the first `n` buffers.
pub open spec fn declarations(n: int, element: Seq<char>) -> Seq<char>
    decreases n,
{
    if n <= 0 {
        Seq::<char>::empty()
    } else {
        declarations(n - 1, element) + declaration(n - 1, element)
    }
}

/// The accessors of direction `i` in a layout.
pub open spec fn accessor(i: int, layout: DdfLayout) -> Seq<char> {
    match layout {
        DdfLayout::Fp32 => fp32_accessors(i),
        DdfLayout::Fp16cPerCell => fp16c_accessors(i),
        DdfLayout::Fp16cPacked => packed_accessors(i),
    }
}

/// The accessors of the first `n` directions in a layout.
pub open spec fn accessors(n: int, layout: DdfLayout) -> Seq<char>
    decreases n,
{
    if n <= 0 {
        Seq::<char>::empty()
    } else {
        accessors(n - 1, layout) + accessor(n - 1, layout)
    }
}

/// The element type of a buffer in a layout.
pub open spec fn element_type(layout: DdfLayout) -> Seq<char> {
    match layout {
        DdfLayout::Fp32 => "u32"@,
        DdfLayout::Fp16cPerCell => "u16"@,
        DdfLayout::Fp16cPacked => "atomic<u32>"@,
    }
}

/// The comment over the accessors of a layout.
pub open spec fn layout_note(layout: DdfLayout) -> Seq<char> {
    match layout {
        DdfLayout::Fp32 => FP32_NOTE@,
        DdfLayout::Fp16cPerCell => FP16C_NOTE@,
        DdfLayout::Fp16cPacked => PACKED_NOTE@,
    }
}

/// The first line of the bindings.
pub const BINDINGS_HEADER: &'static str = "// GENERATED by ad_solver::shaders - do not edit.\n";

/// The storage-buffer declarations and the per-direction typed accessors, without
/// the header line.
pub open spec fn bindings_body(set: VelocitySet, layout: DdfLayout) -> Seq<char> {
    declarations(set.count(), element_type(layout)) + layout_note(layout) + accessors(
        set.count(),
        layout,
    )
}

/// The storage-buffer declarations and the per-direction typed accessors.
pub open spec fn bindings_text(set: VelocitySet, layout: DdfLayout) -> Seq<char> {
    BINDINGS_HEADER@ + bindings_body(set, layout)
}

fn bindings_rest(set: VelocitySet, layout: DdfLayout) -> (s: String)
    ensures
        s@ == bindings_body(set, layout),
{
    let q: usize = set.q();
    let element: &'static str = match layout {
        DdfLayout::Fp32 => "u32",
        DdfLayout::Fp16cPerCell => "u16",
        DdfLayout::Fp16cPacked => "atomic<u32>",
    };
    let mut s: String = String::new();
    let mut i: usize = 0;
    while i < q
        invariant
            q == set.count(),
            i <= q,
            element@ == element_type(layout),
            s@ == declarations(i as int, element_type(layout)),
        decreases q - i,
    {
        push_declaration(&mut s, i, element);
        i += 1;
    }
    s.append(
        match layout {
            DdfLayout::Fp32 => FP32_NOTE,
            DdfLayout::Fp16cPerCell => FP16C_NOTE,
            DdfLayout::Fp16cPacked => PACKED_NOTE,
        },
    );
    let ghost head = declarations(q as int, element_type(layout)) + layout_note(layout);
    let mut i: usize = 0;
    proof {
        assert(s@ =~= head + accessors(0, layout));
    }
    while i < q
        invariant
            q == set.count(),
            i <= q,
            s@ == head + accessors(i as int, layout),
        decreases q - i,
    {
        match layout {
            DdfLayout::Fp32 => push_fp32_accessors(&mut s, i),
            DdfLayout::Fp16cPerCell => push_fp16c_accessors(&mut s, i),
            DdfLayout::Fp16cPacked => push_packed_accessors(&mut s, i),
        }
        i += 1;
        proof {
            assert(s@ =~= head + accessors(i as int, layout));
        }
    }
    s
}

/// The `q` storage-buffer declarations plus per-direction typed accessors.
pub fn bindings(set: VelocitySet, layout: DdfLayout) -> (s: String)
    ensures
        s@ == bindings_text(set, layout),
{
    let mut s: String = String::from_str(BINDINGS_HEADER);
    let rest: String = bindings_rest(set, layout);
    s.append(rest.as_str());
    s
}

/// The load blocks of the pairs below direction `n`.
pub open spec fn load_blocks(n: int) -> Seq<char>
    decreases n,
{
    if n <= 1 {
        Seq::<char>::empty()
    } else {
        load_blocks(n - 2) + pair_open(n - 2, n - 1) + load_line(n - 2) + load_line(n - 1)
            + "    }\n"@
    }
}

/// The store blocks of the pairs below direction `n`.
pub open spec fn store_blocks(n: int) -> Seq<char>
    decreases n,
{
    if n <= 1 {
        Seq::<char>::empty()
    } else {
        store_blocks(n - 2) + pair_open(n - 2, n - 1) + store_line(n - 2) + "    }\n"@
    }
}

/// The opening of the load function, up to the first pair.
pub const LOAD_OPEN: &'static str = "fn load_ddf(cell: u32, c: vec3<u32>, odd: bool, mask: u32, g: ptr<function, array<f32, Q_CONST>>) {\n    (*g)[0] = ddf_get_0(cell);\n";

/// The opening of the store function, up to the first pair.
pub const STORE_OPEN: &'static str = "fn store_ddf(cell: u32, c: vec3<u32>, odd: bool, g: ptr<function, array<f32, Q_CONST>>) {\n    ddf_put_0(cell, (*g)[0]);\n";

/// The unrolled load and store bodies.
pub open spec fn transport_text(set: VelocitySet) -> Seq<char> {
    TRANSPORT_NOTE@ + LOAD_OPEN@ + load_blocks(set.count()) + "}\n\n"@ + STORE_OPEN@
        + store_blocks(set.count()) + "}\n"@
}

fn load_body(set: VelocitySet) -> (s: String)
    ensures
        s@ == load_blocks(set.count()),
{
    let q: usize = set.q();
    let mut s: String = String::new();
    let mut i: usize = 1;
    while i < q
        invariant
            q == set.count(),
            1 <= i <= q,
            i % 2 == 1,
            q % 2 == 1,
            s@ == load_blocks(i as int),
        decreases q - i,
    {
        // Both members of the pair share one neighbour lookup.
        let even: Addr = probe(q, i, false, false);
        let odd: Addr = probe(q, i, true, false);
        let nd: usize = match even.neighbour_dir {
            Some(d) => d,
            None => i + 1,
        };
        push_pair_open(&mut s, i, nd);
        push_load_line(&mut s, i, even, odd);
        let even_b: Addr = probe(q, i + 1, false, false);
        let odd_b: Addr = probe(q, i + 1, true, false);
        push_load_line(&mut s, i + 1, even_b, odd_b);
        s.append("    }\n");
        i += 2;
    }
    s
}

fn store_body(set: VelocitySet) -> (s: String)
    ensures
        s@ == store_blocks(set.count()),
{
    let q: usize = set.q();
    let mut s: String = String::new();
    let mut i: usize = 1;
    while i < q
        invariant
            q == set.count(),
            1 <= i <= q,
            i % 2 == 1,
            q % 2 == 1,
            s@ == store_blocks(i as int),
        decreases q - i,
    {
        let even: Addr = probe(q, i, false, true);
        let odd_a: Addr = probe(q, i, true, true);
        let even_b: Addr = probe(q, i + 1, false, true);
        let odd_b: Addr = probe(q, i + 1, true, true);
        let nd: usize = match even_b.neighbour_dir {
            Some(d) => d,
            None => i + 1,
        };
        push_pair_open(&mut s, i, nd);
        push_store_line(&mut s, i, even, odd_a, even_b, odd_b);
        s.append("    }\n");
        i += 2;
    }
    s
}

/// The unrolled load and store bodies.
///
/// `load_ddf` fills `g[i]` with the shifted population arriving along direction
/// `i`, applying the bounce-back parity flip on any link whose bit is set in
/// `mask`. `store_ddf` writes them back; stores are never flipped.
pub fn transport(set: VelocitySet) -> (s: String)
    ensures
        s@ == transport_text(set),
{
    let mut s: String = String::from_str(TRANSPORT_NOTE);
    s.append(LOAD_OPEN);
    let load: String = load_body(set);
    s.append(load.as_str());
    s.append("}\n\n");
    s.append(STORE_OPEN);
    let store: String = store_body(set);
    s.append(store.as_str());
    s.append("}\n");
    s
}

/// The flag bits as shader constants.
pub open spec fn flag_text() -> Seq<char> {
    "// GENERATED from ad_gpu::types::flags\n"@ + flag_line("SOLID"@, flags::SOLID as int)
        + flag_line("SOLID_BOUNDARY"@, flags::SOLID_BOUNDARY as int) + flag_line(
        "INLET"@,
        flags::INLET as int,
    ) + flag_line("OUTLET"@, flags::OUTLET as int) + flag_line("SPONGE"@, flags::SPONGE as int)
        + flag_line("EQUILIBRIUM"@, flags::EQUILIBRIUM as int)
}

/// The flag bits, emitted so the shader cannot hold a stale copy of their values.
pub fn flag_constants() -> (s: String)
    ensures
        s@ == flag_text(),
{
    let mut s: String = String::from_str("// GENERATED from ad_gpu::types::flags\n");
    push_flag_line(&mut s, "SOLID", flags::SOLID);
    push_flag_line(&mut s, "SOLID_BOUNDARY", flags::SOLID_BOUNDARY);
    push_flag_line(&mut s, "INLET", flags::INLET);
    push_flag_line(&mut s, "OUTLET", flags::OUTLET);
    push_flag_line(&mut s, "SPONGE", flags::SPONGE);
    push_flag_line(&mut s, "EQUILIBRIUM", flags::EQUILIBRIUM);
    s
}

/// What is generated ahead of the buffer declarations.
pub open spec fn prelude_head(set: VelocitySet) -> Seq<char> {
    "const Q_CONST: u32 = "@ + decimal(set.count()) + "u;\n"@ + flag_text() + "\n"@
        + BINDINGS_HEADER@
}

/// What is generated from the buffer declarations on.
pub open spec fn prelude_tail(set: VelocitySet, layout: DdfLayout) -> Seq<char> {
    bindings_body(set, layout) + "\n"@ + transport_text(set)
}

fn head_text(set: VelocitySet) -> (s: String)
    ensures
        s@ == prelude_head(set),
{
    let mut s: String = String::from_str("const Q_CONST: u32 = ");
    let q: usize = set.q();
    s.append(decimal_string(q as u64).as_str());
    s.append("u;\n");
    let f: String = flag_constants();
    s.append(f.as_str());
    s.append("\n");
    s.append(BINDINGS_HEADER);
    s
}

fn tail_text(set: VelocitySet, layout: DdfLayout) -> (s: String)
    ensures
        s@ == prelude_tail(set, layout),
{
    let mut s: String = bindings_rest(set, layout);
    s.append("\n");
    let t: String = transport(set);
    s.append(t.as_str());
    s
}

/// Everything generated, as one file.
///
/// Does *not* hold the `enable` directives the layout may need; those have to
/// precede every declaration in the module, so [`enable_directives`] emits them
/// separately and [`generated_files`] places them first.
pub fn generated_prelude(set: VelocitySet, layout: DdfLayout) -> (s: String)
    ensures
        s@ == prelude_head(set) + prelude_tail(set, layout),
{
    let mut s: String = head_text(set);
    let t: String = tail_text(set, layout);
    s.append(t.as_str());
    s
}

/// The two generated files of the solver's shaders: the head, with the
/// directives, the lattice tables, the storage codec and the constants, and the
/// buffers with the transport bodies.
///
/// Split in two so that the common code can sit between them: it needs the
/// constants, and the transport bodies need its neighbour lookup. The directives
/// go first and nowhere else. `lattice` and `codec` are the text of the lattice
/// tables and of the storage codec.
pub fn generated_files(set: VelocitySet, layout: DdfLayout, lattice: &str, codec: &str) -> (files: (
    String,
    String,
))
    ensures
        files.0@ == directives(layout) + lattice@ + "\n"@ + codec@ + "\n"@ + prelude_head(set),
        files.1@ == prelude_tail(set, layout),
{
    let mut head: String = String::from_str(enable_directives(layout));
    head.append(lattice);
    head.append("\n");
    head.append(codec);
    head.append("\n");
    let h: String = head_text(set);
    head.append(h.as_str());
    (head, tail_text(set, layout))
}

/// The second generated file is the one that opens with the first buffer.
pub proof fn buffers_open_the_second_file(set: VelocitySet, layout: DdfLayout)
    ensures
        "@group(1) @binding("@.is_prefix_of(prelude_tail(set, layout)),
{
    lemma_declarations_open(set.count(), element_type(layout));
    let open = "@group(1) @binding("@;
    let d = declarations(set.count(), element_type(layout));
    let t = prelude_tail(set, layout);
    assert(d.is_prefix_of(t)) by {
        assert(t.subrange(0, d.len() as int) =~= d);
    }
    assert(t.subrange(0, open.len() as int) =~= d.subrange(0, open.len() as int));
}

proof fn lemma_declarations_open(n: int, element: Seq<char>)
    requires
        n >= 1,
    ensures
        "@group(1) @binding("@.is_prefix_of(declarations(n, element)),
    decreases n,
{
    reveal(declaration);
    let open = "@group(1) @binding("@;
    let d = declarations(n, element);
    if n == 1 {
        assert(declarations(0, element) =~= Seq::<char>::empty());
        assert(d =~= declaration(0, element));
        assert(d.subrange(0, open.len() as int) =~= open);
    } else {
        lemma_declarations_open(n - 1, element);
        let e = declarations(n - 1, element);
        assert(d.subrange(0, open.len() as int) =~= e.subrange(0, open.len() as int));
    }
}

/// One preprocessor definition: a flag, or a name with a value.
#[derive(Clone, Debug)]
pub struct Define {
    pub name: String,
    pub value: Option<u32>,
}

/// The definitions a configuration compiles under. `set` and `precision` are the
/// preprocessor names of the velocity set and of the storage precision.
pub fn build_defines(cfg: &SolverConfig, layout: DdfLayout, set: &str, precision: &str) -> (d: Vec<
    Define,
>)
    ensures
        d@.len() == if cfg.macroscopic_buffer {
            6nat
        } else {
            5nat
        },
        d@[0].name@ == set@ && d@[0].value is None,
        d@[1].name@ == precision@ && d@[1].value is None,
        d@[2].name@ == layout.define() && d@[2].value is None,
        d@[3].name@ == cfg.collision.define() && d@[3].value is None,
        d@[4].name@ == "WG_X"@ && d@[4].value == Some(cfg.workgroup_size),
        cfg.macroscopic_buffer ==> d@[5].name@ == "MACRO_BUFFER"@ && d@[5].value is None,
{
    let mut d: Vec<Define> = Vec::new();
    d.push(Define { name: String::from_str(set), value: None });
    d.push(Define { name: String::from_str(precision), value: None });
    // The layout is not implied by the precision - FP16C has two - and it
    // changes the generated source, so it has to be part of the cache key.
    d.push(Define { name: String::from_str(layout.shader_define()), value: None });
    d.push(Define { name: String::from_str(cfg.collision.shader_define()), value: None });
    d.push(Define { name: String::from_str("WG_X"), value: Some(cfg.workgroup_size) });
    if cfg.macroscopic_buffer {
        d.push(Define { name: String::from_str("MACRO_BUFFER"), value: None });
    }
    d
}

/// Short elements are enabled exactly where a layout has them, and only the packed layout
/// shares an element between cells.
pub proof fn short_elements_are_enabled(layout: DdfLayout)
    ensures
        directives(layout).len() > 0 <==> layout == DdfLayout::Fp16cPerCell,
        element_type(layout).len() > 3 <==> layout == DdfLayout::Fp16cPacked,
        element_type(layout)[1] == '1' <==> layout == DdfLayout::Fp16cPerCell,
{
    reveal_strlit("");
    reveal_strlit("enable wgpu_int16;\n");
    reveal_strlit("u32");
    reveal_strlit("u16");
    reveal_strlit("atomic<u32>");
}

} // verus!
