//! Structural validation of untrusted compiled WebAssembly modules.
//!
//! A module-backed node may only start if its binary module conforms to a
//! minimal fixed contract, checked without executing any guest code:
//! the binary parses, it exports a linear memory named `"memory"`, and it
//! exports a function under the configured entrypoint name whose type is
//! exactly one 64-bit integer parameter and no result. The single parameter
//! carries the initial inbound read handle as an integer encoding.
//!
//! The checks are defined over the WebAssembly binary format: an 8-byte
//! preamble followed by sections, each a one-byte identifier and a
//! LEB128-encoded size. The type, import, function and export sections are
//! parsed; the others only framed.

use vstd::prelude::*;

use crate::status::OakStatus;

verus! {

// ---------------------------------------------------------------------------
// LEB128 (unsigned, 32-bit range)
// ---------------------------------------------------------------------------

/// 128 to the power `n`: the bound on an unsigned LEB128 value of `n` bytes.
pub open spec fn spec_pow128(n: nat) -> nat
    decreases n,
{
    if n == 0 {
        1
    } else {
        128 * spec_pow128((n - 1) as nat)
    }
}

pub proof fn lemma_pow128_bound(n: nat)
    requires
        n <= 5,
    ensures
        spec_pow128(n) <= 0x800000000,
    decreases n,
{
    reveal_with_fuel(spec_pow128, 6);
}

/// An unsigned LEB128 value read at `pos`, at most `max` bytes long:
/// the value and the position after it.
pub open spec fn spec_leb(s: Seq<u8>, pos: int, max: nat) -> Option<(nat, int)>
    decreases max,
{
    if pos < 0 || pos >= s.len() || max == 0 {
        None
    } else {
        let b = s[pos];
        if b < 128 {
            Some((b as nat, pos + 1))
        } else {
            match spec_leb(s, pos + 1, (max - 1) as nat) {
                None => None,
                Some((v, p)) => Some(((b - 128) as nat + 128 * v, p)),
            }
        }
    }
}

pub proof fn lemma_pow128_pos(n: nat)
    ensures
        spec_pow128(n) >= 1,
    decreases n,
{
    if n > 0 {
        lemma_pow128_pos((n - 1) as nat);
    }
}

pub proof fn lemma_leb_bounds(s: Seq<u8>, pos: int, max: nat)
    ensures
        spec_leb(s, pos, max) matches Some((v, p)) ==> v < spec_pow128(max) && pos < p <= s.len(),
    decreases max,
{
    if max > 0 {
        lemma_pow128_pos((max - 1) as nat);
        lemma_leb_bounds(s, pos + 1, (max - 1) as nat);
    }
}

/// An unsigned LEB128 value at `pos` that fits 32 bits.
pub open spec fn spec_leb_u32(s: Seq<u8>, pos: int) -> Option<(u32, int)> {
    match spec_leb(s, pos, 5) {
        None => None,
        Some((v, p)) => if v < 0x100000000 {
            Some((v as u32, p))
        } else {
            None
        },
    }
}

pub proof fn lemma_leb_u32_bounds(s: Seq<u8>, pos: int)
    ensures
        spec_leb_u32(s, pos) matches Some((v, p)) ==> pos < p <= s.len(),
{
    lemma_leb_bounds(s, pos, 5);
}

fn read_leb(s: &Vec<u8>, pos: usize, max: usize) -> (r: Option<(u64, usize)>)
    requires
        max <= 5,
    ensures
        (match r {
            Some((v, p)) => {
                &&& spec_leb(s@, pos as int, max as nat) == Some((v as nat, p as int))
                &&& pos < p <= s@.len()
                &&& v < spec_pow128(max as nat)
            },
            None => spec_leb(s@, pos as int, max as nat) is None,
        }),
    decreases max,
{
    if pos >= s.len() || max == 0 {
        return None;
    }
    let b = s[pos];
    if b < 128 {
        proof {
            reveal_with_fuel(spec_pow128, 6);
        }
        Some((b as u64, pos + 1))
    } else {
        match read_leb(s, pos + 1, max - 1) {
            None => None,
            Some((v, p)) => {
                proof {
                    lemma_pow128_bound((max - 1) as nat);
                }
                Some(((b - 128) as u64 + 128 * v, p))
            },
        }
    }
}

fn read_leb_u32(s: &Vec<u8>, pos: usize) -> (r: Option<(u32, usize)>)
    ensures
        (match r {
            Some((v, p)) => spec_leb_u32(s@, pos as int) == Some((v, p as int)) && pos < p
                <= s@.len(),
            None => spec_leb_u32(s@, pos as int) is None,
        }),
{
    match read_leb(s, pos, 5) {
        None => None,
        Some((v, p)) => {
            if v < 0x100000000 {
                Some((v as u32, p))
            } else {
                None
            }
        },
    }
}

// ---------------------------------------------------------------------------
// Preamble and section framing
// ---------------------------------------------------------------------------

/// The 8-byte preamble: the `\0asm` magic and version 1, little-endian.
pub open spec fn spec_preamble_ok(s: Seq<u8>) -> bool {
    &&& s.len() >= 8
    &&& s[0] == 0x00u8
    &&& s[1] == 0x61u8
    &&& s[2] == 0x73u8
    &&& s[3] == 0x6du8
    &&& s[4] == 0x01u8
    &&& s[5] == 0x00u8
    &&& s[6] == 0x00u8
    &&& s[7] == 0x00u8
}

fn preamble_ok(s: &Vec<u8>) -> (r: bool)
    ensures
        r == spec_preamble_ok(s@),
{
    s.len() >= 8 && s[0] == 0x00 && s[1] == 0x61 && s[2] == 0x73 && s[3] == 0x6d && s[4] == 0x01
        && s[5] == 0x00 && s[6] == 0x00 && s[7] == 0x00
}

/// The section framing from `pos` to the end of the module is well-formed:
/// each section is an identifier no greater than 12 and a sized payload that
/// lies within the module, and non-custom section identifiers strictly
/// increase (`prev` is the largest one seen so far).
pub open spec fn spec_sections_ok(s: Seq<u8>, pos: int, prev: u8) -> bool
    decreases s.len() - pos,
{
    if pos == s.len() {
        true
    } else if pos < 0 || pos > s.len() {
        false
    } else {
        let id = s[pos];
        if id > 12 {
            false
        } else {
            match spec_leb_u32(s, pos + 1) {
                None => false,
                Some((size, p)) => {
                    proof {
                        lemma_leb_u32_bounds(s, pos + 1);
                    }
                    if p + size > s.len() {
                        false
                    } else if id == 0 {
                        spec_sections_ok(s, p + size, prev)
                    } else if prev >= id {
                        false
                    } else {
                        spec_sections_ok(s, p + size, id)
                    }
                },
            }
        }
    }
}

/// The payload bounds of the first non-custom section with identifier `want`
/// at or after `pos`, walking the same framing as [`spec_sections_ok`];
/// `None` if the framing breaks first or no such section exists.
pub open spec fn spec_find_section(s: Seq<u8>, pos: int, prev: u8, want: u8) -> Option<(int, int)>
    decreases s.len() - pos,
{
    if pos == s.len() {
        None
    } else if pos < 0 || pos > s.len() {
        None
    } else {
        let id = s[pos];
        if id > 12 {
            None
        } else {
            match spec_leb_u32(s, pos + 1) {
                None => None,
                Some((size, p)) => {
                    proof {
                        lemma_leb_u32_bounds(s, pos + 1);
                    }
                    if p + size > s.len() {
                        None
                    } else if id == 0 {
                        spec_find_section(s, p + size, prev, want)
                    } else if prev >= id {
                        None
                    } else if id == want {
                        Some((p, p + size))
                    } else {
                        spec_find_section(s, p + size, id, want)
                    }
                },
            }
        }
    }
}

fn sections_ok_from(s: &Vec<u8>, pos: usize, prev: u8) -> (r: bool)
    requires
        pos <= s@.len(),
    ensures
        r == spec_sections_ok(s@, pos as int, prev),
    decreases s@.len() - pos,
{
    if pos == s.len() {
        return true;
    }
    let id = s[pos];
    if id > 12 {
        return false;
    }
    match read_leb_u32(s, pos + 1) {
        None => false,
        Some((size, p)) => {
            if size as usize > s.len() - p {
                return false;
            }
            let end = p + size as usize;
            if id == 0 {
                sections_ok_from(s, end, prev)
            } else if prev >= id {
                false
            } else {
                sections_ok_from(s, end, id)
            }
        },
    }
}

fn find_section_from(s: &Vec<u8>, pos: usize, prev: u8, want: u8) -> (r: Option<(usize, usize)>)
    requires
        pos <= s@.len(),
    ensures
        (match r {
            Some((a, b)) => spec_find_section(s@, pos as int, prev, want) == Some(
                (a as int, b as int),
            ) && a <= b <= s@.len(),
            None => spec_find_section(s@, pos as int, prev, want) is None,
        }),
    decreases s@.len() - pos,
{
    if pos == s.len() {
        return None;
    }
    let id = s[pos];
    if id > 12 {
        return None;
    }
    match read_leb_u32(s, pos + 1) {
        None => None,
        Some((size, p)) => {
            if size as usize > s.len() - p {
                return None;
            }
            let end = p + size as usize;
            if id == 0 {
                find_section_from(s, end, prev, want)
            } else if prev >= id {
                None
            } else if id == want {
                Some((p, end))
            } else {
                find_section_from(s, end, id, want)
            }
        },
    }
}

// ---------------------------------------------------------------------------
// Names and value types
// ---------------------------------------------------------------------------

/// A length-prefixed byte string at `pos`: its bytes and the position after.
pub open spec fn spec_name(s: Seq<u8>, pos: int) -> Option<(Seq<u8>, int)> {
    match spec_leb_u32(s, pos) {
        None => None,
        Some((n, p)) => if p + n <= s.len() {
            Some((s.subrange(p, p + n), p + n))
        } else {
            None
        },
    }
}

fn parse_name(s: &Vec<u8>, pos: usize) -> (r: Option<(Vec<u8>, usize)>)
    ensures
        (match r {
            Some((name, p)) => spec_name(s@, pos as int) == Some((name@, p as int)) && pos < p
                <= s@.len(),
            None => spec_name(s@, pos as int) is None,
        }),
{
    match read_leb_u32(s, pos) {
        None => None,
        Some((n, p)) => {
            if n as usize > s.len() - p {
                return None;
            }
            let end = p + n as usize;
            let mut name: Vec<u8> = Vec::new();
            let mut i: usize = p;
            while i < end
                invariant
                    p <= i <= end <= s@.len(),
                    name@ == s@.subrange(p as int, i as int),
                decreases end - i,
            {
                name.push(s[i]);
                i = i + 1;
                proof {
                    assert(name@ =~= s@.subrange(p as int, i as int));
                }
            }
            Some((name, end))
        },
    }
}

/// The byte encodes a value type (a number type, vector type or reference
/// type).
pub open spec fn spec_is_valtype(b: u8) -> bool {
    b == 0x7Fu8 || b == 0x7Eu8 || b == 0x7Du8 || b == 0x7Cu8 || b == 0x7Bu8 || b == 0x70u8 || b
        == 0x6Fu8
}

fn is_valtype(b: u8) -> (r: bool)
    ensures
        r == spec_is_valtype(b),
{
    b == 0x7F || b == 0x7E || b == 0x7D || b == 0x7C || b == 0x7B || b == 0x70 || b == 0x6F
}

/// `count` value-type bytes at `pos`.
pub open spec fn spec_valtypes(s: Seq<u8>, pos: int, count: nat) -> Option<(Seq<u8>, int)>
    decreases count,
{
    if count == 0 {
        Some((Seq::empty(), pos))
    } else if 0 <= pos < s.len() && spec_is_valtype(s[pos]) {
        match spec_valtypes(s, pos + 1, (count - 1) as nat) {
            None => None,
            Some((v, p)) => Some((seq![s[pos]].add(v), p)),
        }
    } else {
        None
    }
}

fn parse_valtypes(s: &Vec<u8>, pos: usize, count: u32) -> (r: Option<(Vec<u8>, usize)>)
    ensures
        (match r {
            Some((v, p)) => spec_valtypes(s@, pos as int, count as nat) == Some((v@, p as int))
                && pos <= p,
            None => spec_valtypes(s@, pos as int, count as nat) is None,
        }),
    decreases count,
{
    if count == 0 {
        let v: Vec<u8> = Vec::new();
        proof {
            assert(v@ =~= Seq::<u8>::empty());
        }
        return Some((v, pos));
    }
    if pos >= s.len() {
        return None;
    }
    let b = s[pos];
    if !is_valtype(b) {
        return None;
    }
    match parse_valtypes(s, pos + 1, count - 1) {
        None => None,
        Some((mut v, p)) => {
            let ghost tail = v@;
            v.insert(0, b);
            proof {
                assert(v@ =~= seq![b].add(tail));
            }
            Some((v, p))
        },
    }
}

// ---------------------------------------------------------------------------
// Function types (the type section)
// ---------------------------------------------------------------------------

/// The type of a function: its parameter and result value types, in order.
pub struct FuncType {
    pub params: Vec<u8>,
    pub results: Vec<u8>,
}

/// The mathematical value of a [`FuncType`].
pub struct FuncTypeV {
    pub params: Seq<u8>,
    pub results: Seq<u8>,
}

impl View for FuncType {
    type V = FuncTypeV;

    open spec fn view(&self) -> FuncTypeV {
        FuncTypeV { params: self.params@, results: self.results@ }
    }
}

/// A function type at `pos`: the `0x60` tag, then the parameter and result
/// value-type vectors.
pub open spec fn spec_functype(s: Seq<u8>, pos: int) -> Option<(FuncTypeV, int)> {
    if !(0 <= pos < s.len() && s[pos] == 0x60u8) {
        None
    } else {
        match spec_leb_u32(s, pos + 1) {
            None => None,
            Some((np, p1)) => match spec_valtypes(s, p1, np as nat) {
                None => None,
                Some((params, p2)) => match spec_leb_u32(s, p2) {
                    None => None,
                    Some((nr, p3)) => match spec_valtypes(s, p3, nr as nat) {
                        None => None,
                        Some((results, p4)) => Some((FuncTypeV { params, results }, p4)),
                    },
                },
            },
        }
    }
}

fn parse_functype(s: &Vec<u8>, pos: usize) -> (r: Option<(FuncType, usize)>)
    ensures
        (match r {
            Some((ft, p)) => spec_functype(s@, pos as int) == Some((ft@, p as int)) && pos <= p,
            None => spec_functype(s@, pos as int) is None,
        }),
{
    if pos >= s.len() || s[pos] != 0x60 {
        return None;
    }
    match read_leb_u32(s, pos + 1) {
        None => None,
        Some((np, p1)) => match parse_valtypes(s, p1, np) {
            None => None,
            Some((params, p2)) => match read_leb_u32(s, p2) {
                None => None,
                Some((nr, p3)) => match parse_valtypes(s, p3, nr) {
                    None => None,
                    Some((results, p4)) => Some((FuncType { params, results }, p4)),
                },
            },
        },
    }
}

/// `count` function types at `pos`.
pub open spec fn spec_functypes(s: Seq<u8>, pos: int, count: nat) -> Option<(Seq<FuncTypeV>, int)>
    decreases count,
{
    if count == 0 {
        Some((Seq::empty(), pos))
    } else {
        match spec_functype(s, pos) {
            None => None,
            Some((ft, p)) => match spec_functypes(s, p, (count - 1) as nat) {
                None => None,
                Some((rest, q)) => Some((seq![ft].add(rest), q)),
            },
        }
    }
}

fn parse_functypes(s: &Vec<u8>, pos: usize, count: u32) -> (r: Option<(Vec<FuncType>, usize)>)
    ensures
        (match r {
            Some((v, p)) => spec_functypes(s@, pos as int, count as nat) matches Some((sv, sp))
                && sp == p && sv.len() == v@.len() && (forall|i: int|
                0 <= i < sv.len() ==> (#[trigger] v@[i])@ == sv[i]) && pos <= p,
            None => spec_functypes(s@, pos as int, count as nat) is None,
        }),
    decreases count,
{
    if count == 0 {
        let v: Vec<FuncType> = Vec::new();
        return Some((v, pos));
    }
    match parse_functype(s, pos) {
        None => None,
        Some((ft, p)) => match parse_functypes(s, p, count - 1) {
            None => None,
            Some((mut v, q)) => {
                v.insert(0, ft);
                Some((v, q))
            },
        },
    }
}

/// The type section payload on `[start, end)`: the function types, consumed
/// exactly.
pub open spec fn spec_type_section(s: Seq<u8>, start: int, end: int) -> Option<Seq<FuncTypeV>> {
    match spec_leb_u32(s, start) {
        None => None,
        Some((n, p)) => match spec_functypes(s, p, n as nat) {
            None => None,
            Some((tys, q)) => if q == end {
                Some(tys)
            } else {
                None
            },
        },
    }
}

fn parse_type_section(s: &Vec<u8>, start: usize, end: usize) -> (r: Option<Vec<FuncType>>)
    ensures
        (match r {
            Some(v) => spec_type_section(s@, start as int, end as int) matches Some(sv) && sv.len()
                == v@.len() && (forall|i: int|
                0 <= i < sv.len() ==> (#[trigger] v@[i])@ == sv[i]),
            None => spec_type_section(s@, start as int, end as int) is None,
        }),
{
    match read_leb_u32(s, start) {
        None => None,
        Some((n, p)) => match parse_functypes(s, p, n) {
            None => None,
            Some((v, q)) => if q == end {
                Some(v)
            } else {
                None
            },
        },
    }
}

// ---------------------------------------------------------------------------
// Imports
// ---------------------------------------------------------------------------

/// Memory or table limits at `pos`: the position after them.
pub open spec fn spec_limits(s: Seq<u8>, pos: int) -> Option<int> {
    if !(0 <= pos < s.len()) {
        None
    } else if s[pos] == 0x00u8 {
        match spec_leb_u32(s, pos + 1) {
            None => None,
            Some((_min, p)) => Some(p),
        }
    } else if s[pos] == 0x01u8 {
        match spec_leb_u32(s, pos + 1) {
            None => None,
            Some((_min, p1)) => match spec_leb_u32(s, p1) {
                None => None,
                Some((_max, p2)) => Some(p2),
            },
        }
    } else {
        None
    }
}

fn parse_limits(s: &Vec<u8>, pos: usize) -> (r: Option<usize>)
    ensures
        (match r {
            Some(p) => spec_limits(s@, pos as int) == Some(p as int) && pos < p <= s@.len(),
            None => spec_limits(s@, pos as int) is None,
        }),
{
    if pos >= s.len() {
        return None;
    }
    if s[pos] == 0x00 {
        match read_leb_u32(s, pos + 1) {
            None => None,
            Some((_min, p)) => Some(p),
        }
    } else if s[pos] == 0x01 {
        match read_leb_u32(s, pos + 1) {
            None => None,
            Some((_min, p1)) => match read_leb_u32(s, p1) {
                None => None,
                Some((_max, p2)) => Some(p2),
            },
        }
    } else {
        None
    }
}

/// One import entry at `pos`: the type index it contributes to the function
/// index space (for a function import), and the position after the entry.
pub open spec fn spec_import_entry(s: Seq<u8>, pos: int) -> Option<(Option<u32>, int)> {
    match spec_name(s, pos) {
        None => None,
        Some((_module, p1)) => match spec_name(s, p1) {
            None => None,
            Some((_field, p2)) => if !(p2 < s.len()) {
                None
            } else {
                let k = s[p2];
                if k == 0x00u8 {
                    match spec_leb_u32(s, p2 + 1) {
                        None => None,
                        Some((ti, p3)) => Some((Some(ti), p3)),
                    }
                } else if k == 0x01u8 {
                    if p2 + 1 < s.len() && (s[p2 + 1] == 0x70u8 || s[p2 + 1] == 0x6Fu8) {
                        match spec_limits(s, p2 + 2) {
                            None => None,
                            Some(p3) => Some((None, p3)),
                        }
                    } else {
                        None
                    }
                } else if k == 0x02u8 {
                    match spec_limits(s, p2 + 1) {
                        None => None,
                        Some(p3) => Some((None, p3)),
                    }
                } else if k == 0x03u8 {
                    if p2 + 2 < s.len() && spec_is_valtype(s[p2 + 1]) && (s[p2 + 2] == 0x00u8
                        || s[p2 + 2] == 0x01u8) {
                        Some((None, p2 + 3))
                    } else {
                        None
                    }
                } else {
                    None
                }
            },
        },
    }
}

fn parse_import_entry(s: &Vec<u8>, pos: usize) -> (r: Option<(Option<u32>, usize)>)
    ensures
        (match r {
            Some((ti, p)) => spec_import_entry(s@, pos as int) == Some((ti, p as int)) && pos < p
                <= s@.len(),
            None => spec_import_entry(s@, pos as int) is None,
        }),
{
    match parse_name(s, pos) {
        None => None,
        Some((_module, p1)) => match parse_name(s, p1) {
            None => None,
            Some((_field, p2)) => {
                if p2 >= s.len() {
                    return None;
                }
                let k = s[p2];
                if k == 0x00 {
                    match read_leb_u32(s, p2 + 1) {
                        None => None,
                        Some((ti, p3)) => Some((Some(ti), p3)),
                    }
                } else if k == 0x01 {
                    if p2 + 1 < s.len() && (s[p2 + 1] == 0x70 || s[p2 + 1] == 0x6F) {
                        match parse_limits(s, p2 + 2) {
                            None => None,
                            Some(p3) => Some((None, p3)),
                        }
                    } else {
                        None
                    }
                } else if k == 0x02 {
                    match parse_limits(s, p2 + 1) {
                        None => None,
                        Some(p3) => Some((None, p3)),
                    }
                } else if k == 0x03 {
                    if s.len() - p2 > 2 && {
                        let vt = s[p2 + 1];
                        is_valtype(vt) && (s[p2 + 2] == 0x00 || s[p2 + 2] == 0x01)
                    } {
                        Some((None, p2 + 3))
                    } else {
                        None
                    }
                } else {
                    None
                }
            },
        },
    }
}

/// `count` import entries at `pos`: the type indices of the imported
/// functions, in order, and the position after the last entry.
pub open spec fn spec_imports(s: Seq<u8>, pos: int, count: nat) -> Option<(Seq<u32>, int)>
    decreases count,
{
    if count == 0 {
        Some((Seq::empty(), pos))
    } else {
        match spec_import_entry(s, pos) {
            None => None,
            Some((ti, p)) => match spec_imports(s, p, (count - 1) as nat) {
                None => None,
                Some((rest, q)) => match ti {
                    Some(t) => Some((seq![t].add(rest), q)),
                    None => Some((rest, q)),
                },
            },
        }
    }
}

fn parse_imports(s: &Vec<u8>, pos: usize, count: u32) -> (r: Option<(Vec<u32>, usize)>)
    ensures
        (match r {
            Some((v, p)) => spec_imports(s@, pos as int, count as nat) == Some((v@, p as int))
                && pos <= p,
            None => spec_imports(s@, pos as int, count as nat) is None,
        }),
    decreases count,
{
    if count == 0 {
        let v: Vec<u32> = Vec::new();
        proof {
            assert(v@ =~= Seq::<u32>::empty());
        }
        return Some((v, pos));
    }
    match parse_import_entry(s, pos) {
        None => None,
        Some((ti, p)) => match parse_imports(s, p, count - 1) {
            None => None,
            Some((mut v, q)) => match ti {
                Some(t) => {
                    let ghost tail = v@;
                    v.insert(0, t);
                    proof {
                        assert(v@ =~= seq![t].add(tail));
                    }
                    Some((v, q))
                },
                None => Some((v, q)),
            },
        },
    }
}

/// The import section payload on `[start, end)`: the imported functions'
/// type indices, consumed exactly.
pub open spec fn spec_import_section(s: Seq<u8>, start: int, end: int) -> Option<Seq<u32>> {
    match spec_leb_u32(s, start) {
        None => None,
        Some((n, p)) => match spec_imports(s, p, n as nat) {
            None => None,
            Some((v, q)) => if q == end {
                Some(v)
            } else {
                None
            },
        },
    }
}

fn parse_import_section(s: &Vec<u8>, start: usize, end: usize) -> (r: Option<Vec<u32>>)
    ensures
        (match r {
            Some(v) => spec_import_section(s@, start as int, end as int) == Some(v@),
            None => spec_import_section(s@, start as int, end as int) is None,
        }),
{
    match read_leb_u32(s, start) {
        None => None,
        Some((n, p)) => match parse_imports(s, p, n) {
            None => None,
            Some((v, q)) => if q == end {
                Some(v)
            } else {
                None
            },
        },
    }
}

// ---------------------------------------------------------------------------
// The function section
// ---------------------------------------------------------------------------

/// `count` LEB128-encoded 32-bit values at `pos`.
pub open spec fn spec_u32s(s: Seq<u8>, pos: int, count: nat) -> Option<(Seq<u32>, int)>
    decreases count,
{
    if count == 0 {
        Some((Seq::empty(), pos))
    } else {
        match spec_leb_u32(s, pos) {
            None => None,
            Some((v, p)) => match spec_u32s(s, p, (count - 1) as nat) {
                None => None,
                Some((rest, q)) => Some((seq![v].add(rest), q)),
            },
        }
    }
}

fn parse_u32s(s: &Vec<u8>, pos: usize, count: u32) -> (r: Option<(Vec<u32>, usize)>)
    ensures
        (match r {
            Some((v, p)) => spec_u32s(s@, pos as int, count as nat) == Some((v@, p as int)) && pos
                <= p,
            None => spec_u32s(s@, pos as int, count as nat) is None,
        }),
    decreases count,
{
    if count == 0 {
        let v: Vec<u32> = Vec::new();
        proof {
            assert(v@ =~= Seq::<u32>::empty());
        }
        return Some((v, pos));
    }
    match read_leb_u32(s, pos) {
        None => None,
        Some((x, p)) => match parse_u32s(s, p, count - 1) {
            None => None,
            Some((mut v, q)) => {
                let ghost tail = v@;
                v.insert(0, x);
                proof {
                    assert(v@ =~= seq![x].add(tail));
                }
                Some((v, q))
            },
        },
    }
}

/// The function section payload on `[start, end)`: the type index of each
/// function defined in the module, consumed exactly.
pub open spec fn spec_func_section(s: Seq<u8>, start: int, end: int) -> Option<Seq<u32>> {
    match spec_leb_u32(s, start) {
        None => None,
        Some((n, p)) => match spec_u32s(s, p, n as nat) {
            None => None,
            Some((v, q)) => if q == end {
                Some(v)
            } else {
                None
            },
        },
    }
}

fn parse_func_section(s: &Vec<u8>, start: usize, end: usize) -> (r: Option<Vec<u32>>)
    ensures
        (match r {
            Some(v) => spec_func_section(s@, start as int, end as int) == Some(v@),
            None => spec_func_section(s@, start as int, end as int) is None,
        }),
{
    match read_leb_u32(s, start) {
        None => None,
        Some((n, p)) => match parse_u32s(s, p, n) {
            None => None,
            Some((v, q)) => if q == end {
                Some(v)
            } else {
                None
            },
        },
    }
}

// ---------------------------------------------------------------------------
// Exports
// ---------------------------------------------------------------------------

/// An export entry: a name, an export kind (0 function, 1 table, 2 memory,
/// 3 global) and an index into that kind's index space.
pub struct Export {
    pub name: Vec<u8>,
    pub kind: u8,
    pub index: u32,
}

/// The mathematical value of an [`Export`].
pub struct ExportV {
    pub name: Seq<u8>,
    pub kind: u8,
    pub index: u32,
}

impl View for Export {
    type V = ExportV;

    open spec fn view(&self) -> ExportV {
        ExportV { name: self.name@, kind: self.kind, index: self.index }
    }
}

/// One export entry at `pos`.
pub open spec fn spec_export_entry(s: Seq<u8>, pos: int) -> Option<(ExportV, int)> {
    match spec_name(s, pos) {
        None => None,
        Some((name, p1)) => if p1 < s.len() && s[p1] <= 3 {
            match spec_leb_u32(s, p1 + 1) {
                None => None,
                Some((idx, p2)) => Some((ExportV { name, kind: s[p1], index: idx }, p2)),
            }
        } else {
            None
        },
    }
}

fn parse_export_entry(s: &Vec<u8>, pos: usize) -> (r: Option<(Export, usize)>)
    ensures
        (match r {
            Some((e, p)) => spec_export_entry(s@, pos as int) == Some((e@, p as int)) && pos < p
                <= s@.len(),
            None => spec_export_entry(s@, pos as int) is None,
        }),
{
    match parse_name(s, pos) {
        None => None,
        Some((name, p1)) => {
            if p1 >= s.len() {
                return None;
            }
            let k = s[p1];
            if k > 3 {
                return None;
            }
            match read_leb_u32(s, p1 + 1) {
                None => None,
                Some((idx, p2)) => Some((Export { name, kind: k, index: idx }, p2)),
            }
        },
    }
}

/// `count` export entries at `pos`.
pub open spec fn spec_exports(s: Seq<u8>, pos: int, count: nat) -> Option<(Seq<ExportV>, int)>
    decreases count,
{
    if count == 0 {
        Some((Seq::empty(), pos))
    } else {
        match spec_export_entry(s, pos) {
            None => None,
            Some((e, p)) => match spec_exports(s, p, (count - 1) as nat) {
                None => None,
                Some((rest, q)) => Some((seq![e].add(rest), q)),
            },
        }
    }
}

fn parse_exports(s: &Vec<u8>, pos: usize, count: u32) -> (r: Option<(Vec<Export>, usize)>)
    ensures
        (match r {
            Some((v, p)) => spec_exports(s@, pos as int, count as nat) matches Some((sv, sp)) && sp
                == p && sv.len() == v@.len() && (forall|i: int|
                0 <= i < sv.len() ==> (#[trigger] v@[i])@ == sv[i]) && pos <= p,
            None => spec_exports(s@, pos as int, count as nat) is None,
        }),
    decreases count,
{
    if count == 0 {
        let v: Vec<Export> = Vec::new();
        return Some((v, pos));
    }
    match parse_export_entry(s, pos) {
        None => None,
        Some((e, p)) => match parse_exports(s, p, count - 1) {
            None => None,
            Some((mut v, q)) => {
                v.insert(0, e);
                Some((v, q))
            },
        },
    }
}

/// The export section payload on `[start, end)`: the exports, consumed
/// exactly.
pub open spec fn spec_export_section(s: Seq<u8>, start: int, end: int) -> Option<Seq<ExportV>> {
    match spec_leb_u32(s, start) {
        None => None,
        Some((n, p)) => match spec_exports(s, p, n as nat) {
            None => None,
            Some((v, q)) => if q == end {
                Some(v)
            } else {
                None
            },
        },
    }
}

fn parse_export_section(s: &Vec<u8>, start: usize, end: usize) -> (r: Option<Vec<Export>>)
    ensures
        (match r {
            Some(v) => spec_export_section(s@, start as int, end as int) matches Some(sv)
                && sv.len() == v@.len() && (forall|i: int|
                0 <= i < sv.len() ==> (#[trigger] v@[i])@ == sv[i]),
            None => spec_export_section(s@, start as int, end as int) is None,
        }),
{
    match read_leb_u32(s, start) {
        None => None,
        Some((n, p)) => match parse_exports(s, p, n) {
            None => None,
            Some((v, q)) => if q == end {
                Some(v)
            } else {
                None
            },
        },
    }
}

// ---------------------------------------------------------------------------
// The module's structure
// ---------------------------------------------------------------------------

/// What structural validation reads out of a module: its function types, the
/// type indices of its imported and its defined functions, and its exports.
pub struct ModuleStructure {
    pub types: Vec<FuncType>,
    pub imported_funcs: Vec<u32>,
    pub functions: Vec<u32>,
    pub exports: Vec<Export>,
}

/// The mathematical value of a [`ModuleStructure`].
pub struct ModuleStructureV {
    pub types: Seq<FuncTypeV>,
    pub imported_funcs: Seq<u32>,
    pub functions: Seq<u32>,
    pub exports: Seq<ExportV>,
}

impl View for ModuleStructure {
    type V = ModuleStructureV;

    open spec fn view(&self) -> ModuleStructureV {
        ModuleStructureV {
            types: Seq::new(self.types@.len(), |i: int| self.types@[i]@),
            imported_funcs: self.imported_funcs@,
            functions: self.functions@,
            exports: Seq::new(self.exports@.len(), |i: int| self.exports@[i]@),
        }
    }
}

/// The module's preamble and section framing are well-formed.
pub open spec fn spec_module_parses(s: Seq<u8>) -> bool {
    spec_preamble_ok(s) && spec_sections_ok(s, 8, 0)
}

/// The structure of a module whose framing and relevant sections parse;
/// a section that is absent contributes an empty sequence.
pub open spec fn spec_module_structure(s: Seq<u8>) -> Option<ModuleStructureV> {
    if !spec_module_parses(s) {
        None
    } else {
        let tys = match spec_find_section(s, 8, 0, 1) {
            None => Some(Seq::<FuncTypeV>::empty()),
            Some((a, b)) => spec_type_section(s, a, b),
        };
        let imps = match spec_find_section(s, 8, 0, 2) {
            None => Some(Seq::<u32>::empty()),
            Some((a, b)) => spec_import_section(s, a, b),
        };
        let funcs = match spec_find_section(s, 8, 0, 3) {
            None => Some(Seq::<u32>::empty()),
            Some((a, b)) => spec_func_section(s, a, b),
        };
        let exps = match spec_find_section(s, 8, 0, 7) {
            None => Some(Seq::<ExportV>::empty()),
            Some((a, b)) => spec_export_section(s, a, b),
        };
        match tys {
            None => None,
            Some(types) => match imps {
                None => None,
                Some(imported_funcs) => match funcs {
                    None => None,
                    Some(functions) => match exps {
                        None => None,
                        Some(exports) => Some(
                            ModuleStructureV { types, imported_funcs, functions, exports },
                        ),
                    },
                },
            },
        }
    }
}

fn parse_module_structure(s: &Vec<u8>) -> (r: Option<ModuleStructure>)
    ensures
        (match r {
            Some(m) => spec_module_structure(s@) == Some(m@),
            None => spec_module_structure(s@) is None,
        }),
{
    if !preamble_ok(s) {
        return None;
    }
    if !sections_ok_from(s, 8, 0) {
        return None;
    }
    let types: Vec<FuncType> = match find_section_from(s, 8, 0, 1) {
        None => Vec::new(),
        Some((a, b)) => match parse_type_section(s, a, b) {
            None => {
                return None;
            },
            Some(v) => v,
        },
    };
    let imported_funcs: Vec<u32> = match find_section_from(s, 8, 0, 2) {
        None => Vec::new(),
        Some((a, b)) => match parse_import_section(s, a, b) {
            None => {
                return None;
            },
            Some(v) => v,
        },
    };
    let functions: Vec<u32> = match find_section_from(s, 8, 0, 3) {
        None => Vec::new(),
        Some((a, b)) => match parse_func_section(s, a, b) {
            None => {
                return None;
            },
            Some(v) => v,
        },
    };
    let exports: Vec<Export> = match find_section_from(s, 8, 0, 7) {
        None => Vec::new(),
        Some((a, b)) => match parse_export_section(s, a, b) {
            None => {
                return None;
            },
            Some(v) => v,
        },
    };
    let m = ModuleStructure { types, imported_funcs, functions, exports };
    proof {
        let sm = spec_module_structure(s@);
        assert(sm matches Some(smv) && smv.types =~= m@.types && smv.imported_funcs
            =~= m@.imported_funcs && smv.functions =~= m@.functions && smv.exports =~= m@.exports);
        assert(sm == Some(m@));
    }
    Some(m)
}

// ---------------------------------------------------------------------------
// The validation checks
// ---------------------------------------------------------------------------

/// The required name of the exported linear memory.
pub open spec fn spec_memory_name() -> Seq<u8> {
    seq![0x6du8, 0x65u8, 0x6du8, 0x6fu8, 0x72u8, 0x79u8]
}

fn memory_export_name() -> (r: Vec<u8>)
    ensures
        r@ == spec_memory_name(),
{
    let mut v: Vec<u8> = Vec::new();
    v.push(0x6d);
    v.push(0x65);
    v.push(0x6d);
    v.push(0x6f);
    v.push(0x72);
    v.push(0x79);
    proof {
        assert(v@ =~= spec_memory_name());
    }
    v
}

/// The first export carrying `name`, if any.
pub open spec fn spec_find_export(exports: Seq<ExportV>, name: Seq<u8>) -> Option<ExportV>
    decreases exports.len(),
{
    if exports.len() == 0 {
        None
    } else if exports[0].name == name {
        Some(exports[0])
    } else {
        spec_find_export(exports.drop_first(), name)
    }
}

fn bytes_equal(a: &Vec<u8>, b: &Vec<u8>) -> (r: bool)
    ensures
        r == (a@ == b@),
{
    if a.len() != b.len() {
        return false;
    }
    let mut i: usize = 0;
    while i < a.len()
        invariant
            i <= a@.len(),
            a@.len() == b@.len(),
            forall|j: int| 0 <= j < i ==> a@[j] == b@[j],
        decreases a@.len() - i,
    {
        if a[i] != b[i] {
            return false;
        }
        i = i + 1;
    }
    proof {
        assert(a@ =~= b@);
    }
    true
}

fn find_export(exports: &Vec<Export>, name: &Vec<u8>) -> (r: Option<usize>)
    ensures
        (match r {
            Some(i) => i < exports@.len() && spec_find_export(
                Seq::new(exports@.len(), |k: int| exports@[k]@),
                name@,
            ) == Some(exports@[i as int]@),
            None => spec_find_export(Seq::new(exports@.len(), |k: int| exports@[k]@), name@)
                is None,
        }),
{
    let ghost evs = Seq::new(exports@.len(), |k: int| exports@[k]@);
    proof {
        assert(evs.skip(0) =~= evs);
    }
    let mut i: usize = 0;
    while i < exports.len()
        invariant
            i <= exports@.len(),
            evs == Seq::new(exports@.len(), |k: int| exports@[k]@),
            spec_find_export(evs, name@) == spec_find_export(evs.skip(i as int), name@),
        decreases exports@.len() - i,
    {
        let e = &exports[i];
        if bytes_equal(&e.name, name) {
            proof {
                assert(evs.skip(i as int)[0] == evs[i as int]);
            }
            return Some(i);
        }
        proof {
            assert(evs.skip(i as int)[0] == evs[i as int]);
            assert(evs.skip(i as int).drop_first() =~= evs.skip(i as int + 1));
        }
        i = i + 1;
    }
    proof {
        assert(evs.skip(i as int) =~= Seq::<ExportV>::empty());
    }
    None
}

/// The function type behind a function export: `None` if the export is not a
/// function or its index does not resolve.
pub open spec fn spec_export_functype(m: ModuleStructureV, e: ExportV) -> Option<FuncTypeV> {
    if e.kind != 0 {
        None
    } else {
        let fi = e.index as int;
        let ni = m.imported_funcs.len() as int;
        if fi < ni {
            if m.imported_funcs[fi] < m.types.len() {
                Some(m.types[m.imported_funcs[fi] as int])
            } else {
                None
            }
        } else if fi - ni < m.functions.len() {
            if m.functions[fi - ni] < m.types.len() {
                Some(m.types[m.functions[fi - ni] as int])
            } else {
                None
            }
        } else {
            None
        }
    }
}

/// Exactly one 64-bit integer parameter and no result: the required
/// entrypoint signature.
pub open spec fn spec_entrypoint_signature(ft: FuncTypeV) -> bool {
    ft.params == seq![0x7Eu8] && ft.results.len() == 0
}

/// The module exports a linear memory under the name `"memory"`.
pub open spec fn spec_has_memory_export(m: ModuleStructureV) -> bool {
    match spec_find_export(m.exports, spec_memory_name()) {
        None => false,
        Some(e) => e.kind == 2,
    }
}

/// The module exports a function under `entrypoint` whose type is exactly
/// one 64-bit integer parameter and no result.
pub open spec fn spec_entrypoint_ok(m: ModuleStructureV, entrypoint: Seq<u8>) -> bool {
    match spec_find_export(m.exports, entrypoint) {
        None => false,
        Some(e) => match spec_export_functype(m, e) {
            None => false,
            Some(ft) => spec_entrypoint_signature(ft),
        },
    }
}

/// Whether the engine accepts the byte sequence as a well-formed, valid
/// WebAssembly module.
pub uninterp spec fn wasmi_accepts(module: Seq<u8>) -> bool;

/// Relies on wasmi::Module::new: whether a byte sequence parses, validates
/// and translates as a WebAssembly module under the default engine
/// configuration depends on the bytes alone.
#[verifier::external_body]
fn wasmi_module_accepted(module: &Vec<u8>) -> (r: bool)
    ensures
        r == wasmi_accepts(module@),
{
    wasmi::Module::new(&wasmi::Engine::default(), module.as_slice()).is_ok()
}

/// The module satisfies the whole loading contract: the engine accepts it,
/// its structure parses, it exports `"memory"`, and it exports `entrypoint`
/// with the required signature.
pub open spec fn spec_module_valid(s: Seq<u8>, entrypoint: Seq<u8>) -> bool {
    &&& spec_module_structure(s) matches Some(m) && spec_has_memory_export(m)
        && spec_entrypoint_ok(m, entrypoint)
    &&& wasmi_accepts(s)
}

/// Validates an untrusted binary module against the loading contract, without
/// executing any guest code.
pub fn validate_module(module: &Vec<u8>, entrypoint: &Vec<u8>) -> (r: Result<(), OakStatus>)
    ensures
        r is Ok <==> spec_module_valid(module@, entrypoint@),
        r matches Err(st) ==> st == OakStatus::ErrInvalidArgs,
{
    let m = match parse_module_structure(module) {
        None => {
            return Err(OakStatus::ErrInvalidArgs);
        },
        Some(m) => m,
    };
    let mem_name = memory_export_name();
    match find_export(&m.exports, &mem_name) {
        None => {
            return Err(OakStatus::ErrInvalidArgs);
        },
        Some(i) => {
            if m.exports[i].kind != 2 {
                return Err(OakStatus::ErrInvalidArgs);
            }
        },
    }
    let ei = match find_export(&m.exports, entrypoint) {
        None => {
            return Err(OakStatus::ErrInvalidArgs);
        },
        Some(i) => i,
    };
    let e = &m.exports[ei];
    if e.kind != 0 {
        return Err(OakStatus::ErrInvalidArgs);
    }
    let fi = e.index as usize;
    let ni = m.imported_funcs.len();
    let ti: u32 = if fi < ni {
        m.imported_funcs[fi]
    } else if fi - ni < m.functions.len() {
        m.functions[fi - ni]
    } else {
        return Err(OakStatus::ErrInvalidArgs);
    };
    if ti as usize >= m.types.len() {
        return Err(OakStatus::ErrInvalidArgs);
    }
    let ft = &m.types[ti as usize];
    if !(ft.params.len() == 1 && ft.results.len() == 0) {
        return Err(OakStatus::ErrInvalidArgs);
    }
    if ft.params[0] != 0x7E {
        proof {
            assert(ft.params@ != seq![0x7Eu8]);
        }
        return Err(OakStatus::ErrInvalidArgs);
    }
    proof {
        assert(ft.params@ =~= seq![0x7Eu8]);
    }
    if !wasmi_module_accepted(module) {
        return Err(OakStatus::ErrInvalidArgs);
    }
    Ok(())
}

// ---------------------------------------------------------------------------
// Laws of validation
// ---------------------------------------------------------------------------

/// Law: a module with no export under the configured entrypoint name never
/// validates, whatever else it contains.
pub proof fn lemma_missing_entrypoint_never_valid(s: Seq<u8>, entrypoint: Seq<u8>)
    requires
        spec_module_structure(s) matches Some(m) ==> spec_find_export(m.exports, entrypoint)
            is None,
    ensures
        !spec_module_valid(s, entrypoint),
{
}

/// Law: a module whose entrypoint export resolves to any signature other than
/// (one 64-bit integer parameter, no result) — extra or missing parameters,
/// a wrong parameter width, or a non-empty result — never validates.
pub proof fn lemma_wrong_signature_never_valid(
    s: Seq<u8>,
    entrypoint: Seq<u8>,
    m: ModuleStructureV,
    e: ExportV,
)
    requires
        spec_module_structure(s) == Some(m),
        spec_find_export(m.exports, entrypoint) == Some(e),
        spec_export_functype(m, e) matches Some(ft) ==> !spec_entrypoint_signature(ft),
    ensures
        !spec_module_valid(s, entrypoint),
{
}

// ---------------------------------------------------------------------------
// The module-backed node
// ---------------------------------------------------------------------------

/// A module-backed node: an untrusted binary module together with the
/// entrypoint it is to be started under and the read handle it receives.
pub struct WasmNode {
    pub name: Vec<u8>,
    pub module: Vec<u8>,
    pub entrypoint: Vec<u8>,
    pub initial_reader: u64,
}

impl WasmNode {
    /// A module-backed node over `module`, to be driven through `entrypoint`
    /// with `initial_reader` as its single argument.
    pub fn new(name: Vec<u8>, module: Vec<u8>, entrypoint: Vec<u8>, initial_reader: u64) -> (r:
        WasmNode)
        ensures
            r.name == name,
            r.module == module,
            r.entrypoint == entrypoint,
            r.initial_reader == initial_reader,
    {
        WasmNode { name, module, entrypoint, initial_reader }
    }

    /// The node's module satisfies the loading contract for its entrypoint.
    pub open spec fn spec_valid(self) -> bool {
        spec_module_valid(self.module@, self.entrypoint@)
    }

    /// Structural validation of the node's module, performed before any
    /// guest code may run.
    pub fn validate(&self) -> (r: Result<(), OakStatus>)
        ensures
            r is Ok <==> self.spec_valid(),
            r matches Err(st) ==> st == OakStatus::ErrInvalidArgs,
    {
        validate_module(&self.module, &self.entrypoint)
    }
}

} // verus!
