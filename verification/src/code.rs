//! The compiled-code object: an immutable container for one compiled unit —
//! bytecode, constant pool, name tables and scope metadata — with read-only
//! accessors, copy-with-overrides, and a stable rendered descriptor.
//!
//! Numeric constants are carried as plain values: an arbitrary-precision
//! integer as sign and magnitude limbs, a float or complex component as its
//! raw bit pattern. The embedding runtime converts its own numeric payloads
//! at the boundary.

use vstd::prelude::*;
use vstd::string::StringExecFns;

use crate::obj::PyExc;

verus! {

/// One slot of the source-location table: the position a matching
/// instruction unit originated from.
#[derive(Clone, Copy, PartialEq, Eq, Structural, Debug)]
pub struct SourceLocation {
    pub row: u32,
    pub column: u32,
}

/// An arbitrary-precision integer constant: sign and little-endian
/// magnitude limbs. Zero is the empty magnitude and is never negative, and
/// the top limb is never zero.
#[derive(Clone, PartialEq, Debug)]
pub struct IntLit {
    pub negative: bool,
    pub limbs: Vec<u64>,
}

/// The invariant of an integer constant.
pub open spec fn int_wf(v: IntLit) -> bool {
    &&& v.limbs@.len() > 0 ==> v.limbs@.last() != 0
    &&& v.limbs@.len() == 0 ==> !v.negative
}

impl IntLit {
    /// Whether the constant is zero.
    pub fn is_zero(&self) -> (r: bool)
        ensures
            r == (self.limbs@.len() == 0),
    {
        self.limbs.len() == 0
    }
}

/// A literal of the constant pool. A literal may recursively be a tuple of
/// literals or a nested code object.
#[derive(PartialEq, Debug)]
pub enum Literal {
    Int(IntLit),
    Float(u64),
    Complex(u64, u64),
    Str(String),
    Bytes(Vec<u8>),
    Bool(bool),
    Tuple(Vec<Literal>),
    Code(Box<CodeObject>),
    NoneValue,
    Ellipsis,
}

/// One compiled unit: bytecode, constant pool, variable-name tables and
/// scope metadata. Instruction units are fixed-width (one 16-bit unit each,
/// low byte first in the raw byte view), and the location table parallels
/// the instruction stream.
#[derive(PartialEq, Debug)]
pub struct CodeObject {
    pub flags: u16,
    pub posonlyarg_count: u32,
    pub arg_count: u32,
    pub kwonlyarg_count: u32,
    pub source_path: String,
    pub first_line_number: Option<u32>,
    pub obj_name: String,
    pub qualname: String,
    pub max_stackdepth: u32,
    pub instructions: Vec<u16>,
    pub locations: Vec<SourceLocation>,
    pub constants: Vec<Literal>,
    pub names: Vec<String>,
    pub varnames: Vec<String>,
    pub cellvars: Vec<String>,
    pub freevars: Vec<String>,
    pub cell2arg: Option<Vec<i32>>,
}

/// Recursive well-formedness of a literal: nested code objects satisfy all
/// code-object invariants.
pub open spec fn lit_wf(l: Literal) -> bool
    decreases l,
{
    match l {
        Literal::Int(v) => int_wf(v),
        Literal::Tuple(es) => forall|i: int| 0 <= i < es@.len() ==> lit_wf(#[trigger] es@[i]),
        Literal::Code(c) => code_wf(*c),
        _ => true,
    }
}

/// The code-object invariant: the instruction stream and the location table
/// have matching length, the first line number is 1-indexed, and every
/// constant is recursively well-formed.
pub open spec fn code_wf(c: CodeObject) -> bool
    decreases c,
{
    &&& c.instructions@.len() == c.locations@.len()
    &&& match c.first_line_number {
        Some(n) => n >= 1,
        None => true,
    }
    &&& forall|i: int| 0 <= i < c.constants@.len() ==> lit_wf(#[trigger] c.constants@[i])
}

/// Value equivalence of literals: equal tags and equal payloads, strings
/// and byte strings by contents, tuples pointwise, nested code objects by
/// `code_eqv`.
pub open spec fn lit_eqv(a: Literal, b: Literal) -> bool
    decreases a,
{
    match (a, b) {
        (Literal::Int(x), Literal::Int(y)) => x.negative == y.negative && x.limbs@ == y.limbs@,
        (Literal::Float(x), Literal::Float(y)) => x == y,
        (Literal::Complex(xr, xi), Literal::Complex(yr, yi)) => xr == yr && xi == yi,
        (Literal::Str(x), Literal::Str(y)) => x@ == y@,
        (Literal::Bytes(x), Literal::Bytes(y)) => x@ == y@,
        (Literal::Bool(x), Literal::Bool(y)) => x == y,
        (Literal::Tuple(xs), Literal::Tuple(ys)) => xs@.len() == ys@.len() && (forall|i: int|
            0 <= i < xs@.len() ==> lit_eqv(#[trigger] xs@[i], ys@[i])),
        (Literal::Code(x), Literal::Code(y)) => code_eqv(*x, *y),
        (Literal::NoneValue, Literal::NoneValue) => true,
        (Literal::Ellipsis, Literal::Ellipsis) => true,
        _ => false,
    }
}

/// Pointwise value equivalence of two constant pools.
pub open spec fn lits_eqv(a: Seq<Literal>, b: Seq<Literal>) -> bool {
    a.len() == b.len() && (forall|i: int| 0 <= i < a.len() ==> lit_eqv(#[trigger] a[i], b[i]))
}

/// Pointwise contents equality of two name tables.
pub open spec fn names_eqv(a: Seq<String>, b: Seq<String>) -> bool {
    a.len() == b.len() && (forall|i: int| 0 <= i < a.len() ==> (#[trigger] a[i])@ == b[i]@)
}

/// Field-for-field value equivalence of two code objects.
pub open spec fn code_eqv(a: CodeObject, b: CodeObject) -> bool
    decreases a,
{
    &&& a.flags == b.flags
    &&& a.posonlyarg_count == b.posonlyarg_count
    &&& a.arg_count == b.arg_count
    &&& a.kwonlyarg_count == b.kwonlyarg_count
    &&& a.source_path@ == b.source_path@
    &&& a.first_line_number == b.first_line_number
    &&& a.obj_name@ == b.obj_name@
    &&& a.qualname@ == b.qualname@
    &&& a.max_stackdepth == b.max_stackdepth
    &&& a.instructions@ == b.instructions@
    &&& a.locations@ == b.locations@
    &&& a.constants@.len() == b.constants@.len()
    &&& (forall|i: int|
        0 <= i < a.constants@.len() ==> lit_eqv(#[trigger] a.constants@[i], b.constants@[i]))
    &&& names_eqv(a.names@, b.names@)
    &&& names_eqv(a.varnames@, b.varnames@)
    &&& names_eqv(a.cellvars@, b.cellvars@)
    &&& names_eqv(a.freevars@, b.freevars@)
    &&& match (a.cell2arg, b.cell2arg) {
        (Some(x), Some(y)) => x@ == y@,
        (None, None) => true,
        _ => false,
    }
}

/// The field a supplied override replaces, or the receiver's value.
pub open spec fn override_or<T>(o: Option<T>, d: T) -> T {
    match o {
        Some(x) => x,
        None => d,
    }
}

/// Copy the elements of a vector of copyable values.
fn copy_vec<T: Copy>(v: &Vec<T>) -> (r: Vec<T>)
    ensures
        r@ == v@,
{
    let n = v.len();
    let mut acc: Vec<T> = Vec::new();
    let mut j: usize = 0;
    while j < n
        invariant
            0 <= j <= n,
            n == v@.len(),
            acc@ =~= v@.subrange(0, j as int),
        decreases n - j,
    {
        acc.push(v[j]);
        proof {
            assert(acc@ =~= v@.subrange(0, j + 1 as int));
        }
        j = j + 1;
    }
    proof {
        assert(acc@ =~= v@);
    }
    acc
}

/// Copy a string by contents.
fn copy_string(s: &String) -> (r: String)
    ensures
        r@ == s@,
{
    s.clone()
}

/// Copy a name table by contents.
fn copy_names(v: &Vec<String>) -> (r: Vec<String>)
    ensures
        names_eqv(r@, v@),
{
    let n = v.len();
    let mut acc: Vec<String> = Vec::new();
    let mut j: usize = 0;
    while j < n
        invariant
            0 <= j <= n,
            n == v@.len(),
            acc@.len() == j,
            forall|m: int| 0 <= m < j ==> (#[trigger] acc@[m])@ == v@[m]@,
        decreases n - j,
    {
        acc.push(copy_string(&v[j]));
        j = j + 1;
    }
    acc
}

/// Copy a literal by value.
fn copy_literal(l: &Literal) -> (r: Literal)
    ensures
        lit_eqv(r, *l),
        lit_wf(*l) ==> lit_wf(r),
    decreases *l,
{
    match l {
        Literal::Int(v) => Literal::Int(
            IntLit { negative: v.negative, limbs: copy_vec(&v.limbs) },
        ),
        Literal::Float(x) => Literal::Float(*x),
        Literal::Complex(re, im) => Literal::Complex(*re, *im),
        Literal::Str(s) => Literal::Str(copy_string(s)),
        Literal::Bytes(b) => Literal::Bytes(copy_vec(b)),
        Literal::Bool(b) => Literal::Bool(*b),
        Literal::Tuple(es) => {
            let n = es.len();
            let mut acc: Vec<Literal> = Vec::new();
            let mut j: usize = 0;
            while j < n
                invariant
                    0 <= j <= n,
                    n == es@.len(),
                    acc@.len() == j,
                    *l == Literal::Tuple(*es),
                    forall|m: int| 0 <= m < j ==> lit_eqv(#[trigger] acc@[m], es@[m]),
                    forall|m: int| 0 <= m < j ==> (lit_wf(es@[m]) ==> lit_wf(#[trigger] acc@[m])),
                decreases n - j,
            {
                proof {
                    assert(decreases_to!(*l => (*l)->Tuple_0));
                    assert(decreases_to!(*es => es@));
                    assert(decreases_to!(es@ => es@[j as int]));
                }
                acc.push(copy_literal(&es[j]));
                j = j + 1;
            }
            Literal::Tuple(acc)
        },
        Literal::Code(c) => Literal::Code(Box::new(copy_code(c))),
        Literal::NoneValue => Literal::NoneValue,
        Literal::Ellipsis => Literal::Ellipsis,
    }
}

/// Copy a constant pool by value.
fn copy_literals(v: &Vec<Literal>) -> (r: Vec<Literal>)
    ensures
        lits_eqv(r@, v@),
        (forall|i: int| 0 <= i < v@.len() ==> lit_wf(#[trigger] v@[i])) ==> (forall|i: int|
            0 <= i < r@.len() ==> lit_wf(#[trigger] r@[i])),
    decreases v@,
{
    let n = v.len();
    let mut acc: Vec<Literal> = Vec::new();
    let mut j: usize = 0;
    while j < n
        invariant
            0 <= j <= n,
            n == v@.len(),
            acc@.len() == j,
            forall|m: int| 0 <= m < j ==> lit_eqv(#[trigger] acc@[m], v@[m]),
            forall|m: int| 0 <= m < j ==> (lit_wf(v@[m]) ==> lit_wf(#[trigger] acc@[m])),
        decreases n - j,
    {
        proof {
            assert(decreases_to!(v@ => v@[j as int]));
        }
        acc.push(copy_literal(&v[j]));
        j = j + 1;
    }
    acc
}

/// Copy a code object by value.
fn copy_code(c: &CodeObject) -> (r: CodeObject)
    ensures
        code_eqv(r, *c),
        code_wf(*c) ==> code_wf(r),
    decreases *c,
{
    CodeObject {
        flags: c.flags,
        posonlyarg_count: c.posonlyarg_count,
        arg_count: c.arg_count,
        kwonlyarg_count: c.kwonlyarg_count,
        source_path: copy_string(&c.source_path),
        first_line_number: c.first_line_number,
        obj_name: copy_string(&c.obj_name),
        qualname: copy_string(&c.qualname),
        max_stackdepth: c.max_stackdepth,
        instructions: copy_vec(&c.instructions),
        locations: copy_vec(&c.locations),
        constants: copy_literals(&c.constants),
        names: copy_names(&c.names),
        varnames: copy_names(&c.varnames),
        cellvars: copy_names(&c.cellvars),
        freevars: copy_names(&c.freevars),
        cell2arg: match &c.cell2arg {
            Some(v) => Some(copy_vec(v)),
            None => None,
        },
    }
}

/// Whether a literal is recursively well-formed.
pub fn check_literal(l: &Literal) -> (r: bool)
    ensures
        r == lit_wf(*l),
    decreases *l,
{
    match l {
        Literal::Int(v) => {
            if v.limbs.len() == 0 {
                !v.negative
            } else {
                *v.limbs.last().unwrap() != 0
            }
        },
        Literal::Tuple(es) => {
            let n = es.len();
            let mut j: usize = 0;
            while j < n
                invariant
                    0 <= j <= n,
                    n == es@.len(),
                    *l == Literal::Tuple(*es),
                    forall|m: int| 0 <= m < j ==> lit_wf(#[trigger] es@[m]),
                decreases n - j,
            {
                proof {
                    assert(decreases_to!(*l => (*l)->Tuple_0));
                    assert(decreases_to!(*es => es@));
                    assert(decreases_to!(es@ => es@[j as int]));
                }
                if !check_literal(&es[j]) {
                    return false;
                }
                j = j + 1;
            }
            true
        },
        Literal::Code(c) => check_code(c),
        _ => true,
    }
}

/// Whether every literal of a pool is recursively well-formed.
pub fn check_literals(v: &Vec<Literal>) -> (r: bool)
    ensures
        r == (forall|i: int| 0 <= i < v@.len() ==> lit_wf(#[trigger] v@[i])),
    decreases v@,
{
    let n = v.len();
    let mut j: usize = 0;
    while j < n
        invariant
            0 <= j <= n,
            n == v@.len(),
            forall|m: int| 0 <= m < j ==> lit_wf(#[trigger] v@[m]),
        decreases n - j,
    {
        proof {
            assert(decreases_to!(v@ => v@[j as int]));
        }
        if !check_literal(&v[j]) {
            return false;
        }
        j = j + 1;
    }
    true
}

/// Whether a code object satisfies all its invariants.
pub fn check_code(c: &CodeObject) -> (r: bool)
    ensures
        r == code_wf(*c),
    decreases *c,
{
    if c.instructions.len() != c.locations.len() {
        return false;
    }
    if let Some(n) = c.first_line_number {
        if n < 1 {
            return false;
        }
    }
    check_literals(&c.constants)
}

/// The decimal digit characters.
pub open spec fn dec_digit(d: int) -> char {
    if d == 0 {
        '0'
    } else if d == 1 {
        '1'
    } else if d == 2 {
        '2'
    } else if d == 3 {
        '3'
    } else if d == 4 {
        '4'
    } else if d == 5 {
        '5'
    } else if d == 6 {
        '6'
    } else if d == 7 {
        '7'
    } else if d == 8 {
        '8'
    } else {
        '9'
    }
}

/// The decimal rendering of a non-negative integer, most significant digit
/// first.
pub open spec fn dec_chars(n: int) -> Seq<char>
    decreases n,
{
    if n < 10 {
        seq![dec_digit(n)]
    } else {
        dec_chars(n / 10).push(dec_digit(n % 10))
    }
}

/// The hexadecimal digit characters (lower case).
pub open spec fn hex_digit(d: int) -> char {
    if d < 10 {
        dec_digit(d)
    } else if d == 10 {
        'a'
    } else if d == 11 {
        'b'
    } else if d == 12 {
        'c'
    } else if d == 13 {
        'd'
    } else if d == 14 {
        'e'
    } else {
        'f'
    }
}

/// The hexadecimal rendering of a non-negative integer, most significant
/// digit first.
pub open spec fn hex_chars(n: int) -> Seq<char>
    decreases n,
{
    if n < 16 {
        seq![hex_digit(n)]
    } else {
        hex_chars(n / 16).push(hex_digit(n % 16))
    }
}

/// Append the decimal rendering of `n`.
fn push_dec(out: &mut String, n: u64)
    ensures
        final(out)@ == old(out)@ + dec_chars(n as int),
    decreases n,
{
    if n >= 10 {
        push_dec(out, n / 10);
    }
    let d = n % 10;
    match d {
        0 => out.append("0"),
        1 => out.append("1"),
        2 => out.append("2"),
        3 => out.append("3"),
        4 => out.append("4"),
        5 => out.append("5"),
        6 => out.append("6"),
        7 => out.append("7"),
        8 => out.append("8"),
        _ => out.append("9"),
    }
    proof {
        reveal_strlit("0");
        reveal_strlit("1");
        reveal_strlit("2");
        reveal_strlit("3");
        reveal_strlit("4");
        reveal_strlit("5");
        reveal_strlit("6");
        reveal_strlit("7");
        reveal_strlit("8");
        reveal_strlit("9");
        if n >= 10 {
            assert(final(out)@ =~= old(out)@ + dec_chars(n as int));
        } else {
            assert(final(out)@ =~= old(out)@ + dec_chars(n as int));
        }
    }
}

/// Append the hexadecimal rendering of `n`.
fn push_hex(out: &mut String, n: u64)
    ensures
        final(out)@ == old(out)@ + hex_chars(n as int),
    decreases n,
{
    if n >= 16 {
        push_hex(out, n / 16);
    }
    let d = n % 16;
    match d {
        0 => out.append("0"),
        1 => out.append("1"),
        2 => out.append("2"),
        3 => out.append("3"),
        4 => out.append("4"),
        5 => out.append("5"),
        6 => out.append("6"),
        7 => out.append("7"),
        8 => out.append("8"),
        9 => out.append("9"),
        10 => out.append("a"),
        11 => out.append("b"),
        12 => out.append("c"),
        13 => out.append("d"),
        14 => out.append("e"),
        _ => out.append("f"),
    }
    proof {
        reveal_strlit("0");
        reveal_strlit("1");
        reveal_strlit("2");
        reveal_strlit("3");
        reveal_strlit("4");
        reveal_strlit("5");
        reveal_strlit("6");
        reveal_strlit("7");
        reveal_strlit("8");
        reveal_strlit("9");
        reveal_strlit("a");
        reveal_strlit("b");
        reveal_strlit("c");
        reveal_strlit("d");
        reveal_strlit("e");
        reveal_strlit("f");
        assert(final(out)@ =~= old(out)@ + hex_chars(n as int));
    }
}

/// The rendered descriptor of a code object with the given identity token.
pub open spec fn spec_code_repr(
    name: Seq<char>,
    id: u64,
    path: Seq<char>,
    line: Option<u32>,
) -> Seq<char> {
    "<code object "@ + name + " at 0x"@ + hex_chars(id as int) + ", file \""@ + path + "\", line "@
        + (match line {
        Some(n) => dec_chars(n as int),
        None => "-1"@,
    }) + ">"@
}

/// The raw instruction bytes: each 16-bit unit in little-endian order.
pub open spec fn code_bytes(instrs: Seq<u16>) -> Seq<u8> {
    Seq::new(
        instrs.len() * 2,
        |i: int|
            if i % 2 == 0 {
                (instrs[i / 2] % 256) as u8
            } else {
                (instrs[i / 2] / 256) as u8
            },
    )
}

/// Literal value equivalence is reflexive.
pub proof fn lemma_lit_eqv_refl(l: Literal)
    ensures
        lit_eqv(l, l),
    decreases l,
{
    match l {
        Literal::Tuple(es) => {
            assert forall|i: int| 0 <= i < es@.len() implies lit_eqv(#[trigger] es@[i], es@[i]) by {
                assert(decreases_to!(l => l->Tuple_0));
                assert(decreases_to!(es => es@));
                assert(decreases_to!(es@ => es@[i]));
                lemma_lit_eqv_refl(es@[i]);
            }
        },
        Literal::Code(c) => {
            lemma_code_eqv_refl(*c);
        },
        _ => {},
    }
}

/// Code-object value equivalence is reflexive.
pub proof fn lemma_code_eqv_refl(c: CodeObject)
    ensures
        code_eqv(c, c),
    decreases c,
{
    assert forall|i: int|
        0 <= i < c.constants@.len() implies lit_eqv(#[trigger] c.constants@[i], c.constants@[i]) by {
        assert(decreases_to!(c => c.constants));
        assert(decreases_to!(c.constants => c.constants@));
        assert(decreases_to!(c.constants@ => c.constants@[i]));
        lemma_lit_eqv_refl(c.constants@[i]);
    }
}

/// The named, optional overrides accepted by `replace`. Fields that are
/// `None` are copied from the receiver.
pub struct ReplaceArgs {
    pub co_posonlyargcount: Option<u32>,
    pub co_argcount: Option<u32>,
    pub co_kwonlyargcount: Option<u32>,
    pub co_filename: Option<String>,
    pub co_firstlineno: Option<u32>,
    pub co_consts: Option<Vec<Literal>>,
    pub co_name: Option<String>,
    pub co_names: Option<Vec<String>>,
    pub co_flags: Option<u16>,
    pub co_varnames: Option<Vec<String>>,
}

impl Default for ReplaceArgs {
    /// No overrides: `replace` copies every field.
    fn default() -> (r: Self)
        ensures
            r.co_posonlyargcount is None,
            r.co_argcount is None,
            r.co_kwonlyargcount is None,
            r.co_filename is None,
            r.co_firstlineno is None,
            r.co_consts is None,
            r.co_name is None,
            r.co_names is None,
            r.co_flags is None,
            r.co_varnames is None,
    {
        ReplaceArgs {
            co_posonlyargcount: None,
            co_argcount: None,
            co_kwonlyargcount: None,
            co_filename: None,
            co_firstlineno: None,
            co_consts: None,
            co_name: None,
            co_names: None,
            co_flags: None,
            co_varnames: None,
        }
    }
}

/// The first line number `replace` stores for a supplied override: the
/// numbering is 1-indexed, and a supplied 0 clears the field.
pub open spec fn lineno_of_override(n: u32) -> Option<u32> {
    if n >= 1 {
        Some(n)
    } else {
        None
    }
}

/// The runtime's `code` object: an immutable wrapper around one compiled
/// unit.
pub struct PyCode {
    pub code: CodeObject,
}

impl PyCode {
    /// The code object's invariant.
    pub open spec fn wf(&self) -> bool {
        code_wf(self.code)
    }

    /// Wrap a compiled unit. The producer guarantees the invariants; this
    /// is a trusted-input data carrier, not a verifier.
    pub fn new(code: CodeObject) -> (r: PyCode)
        requires
            code_wf(code),
        ensures
            r.code == code,
            r.wf(),
    {
        PyCode { code }
    }

    /// Direct construction from the language surface is rejected: this type
    /// is producer-restricted.
    pub fn slot_new() -> (r: Result<PyCode, PyExc>)
        ensures
            r == Err::<PyCode, PyExc>(PyExc::TypeError),
    {
        Err(PyExc::TypeError)
    }

    /// Positional-only argument count.
    pub fn co_posonlyargcount(&self) -> (r: usize)
        ensures
            r == self.code.posonlyarg_count as usize,
    {
        self.code.posonlyarg_count as usize
    }

    /// Positional argument count.
    pub fn co_argcount(&self) -> (r: usize)
        ensures
            r == self.code.arg_count as usize,
    {
        self.code.arg_count as usize
    }

    /// Keyword-only argument count.
    pub fn co_kwonlyargcount(&self) -> (r: usize)
        ensures
            r == self.code.kwonlyarg_count as usize,
    {
        self.code.kwonlyarg_count as usize
    }

    /// Maximum stack depth.
    pub fn co_stacksize(&self) -> (r: u32)
        ensures
            r == self.code.max_stackdepth,
    {
        self.code.max_stackdepth
    }

    /// The source file path.
    pub fn co_filename(&self) -> (r: &String)
        ensures
            r == &self.code.source_path,
    {
        &self.code.source_path
    }

    /// The first line number, or 0 when absent.
    pub fn co_firstlineno(&self) -> (r: u32)
        ensures
            r == match self.code.first_line_number {
                Some(n) => n,
                None => 0u32,
            },
    {
        match self.code.first_line_number {
            Some(n) => n,
            None => 0,
        }
    }

    /// The human-readable name.
    pub fn co_name(&self) -> (r: &String)
        ensures
            r == &self.code.obj_name,
    {
        &self.code.obj_name
    }

    /// The qualified name.
    pub fn co_qualname(&self) -> (r: &String)
        ensures
            r == &self.code.qualname,
    {
        &self.code.qualname
    }

    /// The referenced-name table.
    pub fn co_names(&self) -> (r: &Vec<String>)
        ensures
            r == &self.code.names,
    {
        &self.code.names
    }

    /// The local-variable name table.
    pub fn co_varnames(&self) -> (r: &Vec<String>)
        ensures
            r == &self.code.varnames,
    {
        &self.code.varnames
    }

    /// The cell-variable name table.
    pub fn co_cellvars(&self) -> (r: &Vec<String>)
        ensures
            r == &self.code.cellvars,
    {
        &self.code.cellvars
    }

    /// The free-variable name table.
    pub fn co_freevars(&self) -> (r: &Vec<String>)
        ensures
            r == &self.code.freevars,
    {
        &self.code.freevars
    }

    /// The number of local variable slots.
    pub fn co_nlocals(&self) -> (r: usize)
        ensures
            r == self.code.varnames@.len(),
    {
        self.code.varnames.len()
    }

    /// The flags bitset.
    pub fn co_flags(&self) -> (r: u16)
        ensures
            r == self.code.flags,
    {
        self.code.flags
    }

    /// The constant pool.
    pub fn co_consts(&self) -> (r: &Vec<Literal>)
        ensures
            r == &self.code.constants,
    {
        &self.code.constants
    }

    /// The raw instruction bytes: each fixed-width unit reinterpreted as two
    /// bytes, low byte first.
    pub fn co_code(&self) -> (r: Vec<u8>)
        ensures
            r@ == code_bytes(self.code.instructions@),
    {
        let n = self.code.instructions.len();
        let mut acc: Vec<u8> = Vec::new();
        let mut j: usize = 0;
        while j < n
            invariant
                0 <= j <= n,
                n == self.code.instructions@.len(),
                acc@.len() == 2 * j,
                forall|m: int|
                    0 <= m < 2 * j ==> acc@[m] == code_bytes(self.code.instructions@)[m],
            decreases n - j,
        {
            let w = self.code.instructions[j];
            let lo = (w % 256) as u8;
            let hi = (w / 256) as u8;
            acc.push(lo);
            acc.push(hi);
            j = j + 1;
        }
        proof {
            assert(acc@ =~= code_bytes(self.code.instructions@));
        }
        acc
    }

    /// A new code object with every overridden field taken from `args` and
    /// every other field copied from the receiver. Qualified name, stack
    /// depth, instructions, locations, cell and free variable tables and
    /// the cell-to-argument mapping are never overridable. Supplied
    /// constants that break the recursive invariant are a type error.
    pub fn replace(&self, args: ReplaceArgs) -> (r: Result<PyCode, PyExc>)
        requires
            self.wf(),
        ensures
            match r {
                Ok(p) => {
                    &&& (match args.co_consts {
                        Some(ref cs) => forall|i: int|
                            0 <= i < cs@.len() ==> lit_wf(#[trigger] cs@[i]),
                        None => true,
                    })
                    &&& p.wf()
                    &&& code_eqv(
                        p.code,
                        (CodeObject {
                            flags: override_or(args.co_flags, self.code.flags),
                            posonlyarg_count: override_or(
                                args.co_posonlyargcount,
                                self.code.posonlyarg_count,
                            ),
                            arg_count: override_or(args.co_argcount, self.code.arg_count),
                            kwonlyarg_count: override_or(
                                args.co_kwonlyargcount,
                                self.code.kwonlyarg_count,
                            ),
                            source_path: override_or(args.co_filename, self.code.source_path),
                            first_line_number: (match args.co_firstlineno {
                                Some(n) => lineno_of_override(n),
                                None => self.code.first_line_number,
                            }),
                            obj_name: override_or(args.co_name, self.code.obj_name),
                            qualname: self.code.qualname,
                            max_stackdepth: self.code.max_stackdepth,
                            instructions: self.code.instructions,
                            locations: self.code.locations,
                            constants: override_or(args.co_consts, self.code.constants),
                            names: override_or(args.co_names, self.code.names),
                            varnames: override_or(args.co_varnames, self.code.varnames),
                            cellvars: self.code.cellvars,
                            freevars: self.code.freevars,
                            cell2arg: self.code.cell2arg,
                        }),
                    )
                },
                Err(e) => e == PyExc::TypeError && (match args.co_consts {
                    Some(ref cs) => !(forall|i: int|
                        0 <= i < cs@.len() ==> lit_wf(#[trigger] cs@[i])),
                    None => false,
                }),
            },
    {
        let constants = match args.co_consts {
            Some(cs) => {
                if !check_literals(&cs) {
                    return Err(PyExc::TypeError);
                }
                cs
            },
            None => copy_literals(&self.code.constants),
        };
        let code = CodeObject {
            flags: match args.co_flags {
                Some(f) => f,
                None => self.code.flags,
            },
            posonlyarg_count: match args.co_posonlyargcount {
                Some(c) => c,
                None => self.code.posonlyarg_count,
            },
            arg_count: match args.co_argcount {
                Some(c) => c,
                None => self.code.arg_count,
            },
            kwonlyarg_count: match args.co_kwonlyargcount {
                Some(c) => c,
                None => self.code.kwonlyarg_count,
            },
            source_path: match args.co_filename {
                Some(p) => p,
                None => copy_string(&self.code.source_path),
            },
            first_line_number: match args.co_firstlineno {
                Some(n) => if n >= 1 {
                    Some(n)
                } else {
                    None
                },
                None => self.code.first_line_number,
            },
            obj_name: match args.co_name {
                Some(nm) => nm,
                None => copy_string(&self.code.obj_name),
            },
            qualname: copy_string(&self.code.qualname),
            max_stackdepth: self.code.max_stackdepth,
            instructions: copy_vec(&self.code.instructions),
            locations: copy_vec(&self.code.locations),
            constants,
            names: match args.co_names {
                Some(ns) => ns,
                None => copy_names(&self.code.names),
            },
            varnames: match args.co_varnames {
                Some(vs) => vs,
                None => copy_names(&self.code.varnames),
            },
            cellvars: copy_names(&self.code.cellvars),
            freevars: copy_names(&self.code.freevars),
            cell2arg: match &self.code.cell2arg {
                Some(v) => Some(copy_vec(v)),
                None => None,
            },
        };
        proof {
            lemma_lits_eqv_refl_all(code.constants@);
        }
        Ok(PyCode { code })
    }

    /// The stable human-readable descriptor, rendered with the identity
    /// token the embedding runtime assigns to this object.
    pub fn repr_str(&self, id: u64) -> (r: String)
        ensures
            r@ == spec_code_repr(
                self.code.obj_name@,
                id,
                self.code.source_path@,
                self.code.first_line_number,
            ),
    {
        let mut out = String::new();
        out.append("<code object ");
        out.append(self.code.obj_name.as_str());
        out.append(" at 0x");
        push_hex(&mut out, id);
        out.append(", file \"");
        out.append(self.code.source_path.as_str());
        out.append("\", line ");
        match self.code.first_line_number {
            Some(n) => push_dec(&mut out, n as u64),
            None => out.append("-1"),
        }
        out.append(">");
        proof {
            assert(out@ =~= spec_code_repr(
                self.code.obj_name@,
                id,
                self.code.source_path@,
                self.code.first_line_number,
            ));
        }
        out
    }
}

/// Every literal of a pool is value-equivalent to itself.
proof fn lemma_lits_eqv_refl_all(s: Seq<Literal>)
    ensures
        forall|i: int| 0 <= i < s.len() ==> lit_eqv(#[trigger] s[i], s[i]),
{
    assert forall|i: int| 0 <= i < s.len() implies lit_eqv(#[trigger] s[i], s[i]) by {
        lemma_lit_eqv_refl(s[i]);
    }
}

/// Producers that yield a compiled unit for wrapping into a runtime code
/// object.
pub trait IntoCodeObject {
    fn into_code_object(self) -> CodeObject;
}

impl IntoCodeObject for CodeObject {
    /// A compiled unit is already in its final shape.
    fn into_code_object(self) -> (r: CodeObject)
        ensures
            r == self,
    {
        self
    }
}

/// The constant-pool builder: wraps plain payloads into pool literals. The
/// embedding runtime's interning and allocation are outside this type.
pub struct PyObjBag;

impl PyObjBag {
    /// An integer constant.
    pub fn make_int(&self, value: IntLit) -> (r: Literal)
        ensures
            r == Literal::Int(value),
    {
        Literal::Int(value)
    }

    /// A boolean constant from an integer payload: any non-zero value is
    /// true.
    pub fn make_bool(&self, value: &IntLit) -> (r: Literal)
        ensures
            r == Literal::Bool(value.limbs@.len() != 0),
    {
        Literal::Bool(!value.is_zero())
    }

    /// A tuple constant.
    pub fn make_tuple(&self, elements: Vec<Literal>) -> (r: Literal)
        ensures
            r == Literal::Tuple(elements),
    {
        Literal::Tuple(elements)
    }

    /// A nested code constant.
    pub fn make_code(&self, code: CodeObject) -> (r: Literal)
        ensures
            r matches Literal::Code(c) && *c == code,
    {
        Literal::Code(Box::new(code))
    }
}

} // verus!
