//! Parsing of BLIF netlist files.

use crate::parsers::{intern_id, intern_names, Parse, WireHasher};
use crate::text::{
    dec_digits, dec_val, find_char, find_sub, first_sub_idx, has_sub_at, is_digit_seq,
    lemma_first_sub_idx, parse_usize, split_char, spec_trim, str_eq, str_split, str_starts_with,
    str_suffix_from, str_trim, usize_to_string,
};
use crate::util::{first_idx, lemma_first_idx, lemma_first_idx_absent, lemma_first_idx_found};
use crate::{Operation, WireValue};
use vstd::prelude::*;
use vstd::string::StrSliceExecFns;
use vstd::string::StringExecFns;

verus! {

/// What a piece of netlist text fails with.
#[derive(Clone, Copy, Debug, PartialEq, Eq, Structural)]
pub enum BlifError {
    /// A line misses a token or an `=` delimiter that its directive needs.
    MalformedLine,
    /// A `.gate` line names an opcode the domain does not support, or hands
    /// it the wrong number of wires.
    UnsupportedGate,
    /// A constant token cannot be read as a value of the domain.
    BadConstant,
    /// A wire name holds a malformed or oversized bus index or width.
    BadWireIndex,
    /// A wire is the reserved `$undef`.
    UndefinedWire,
    /// The two sides of a subcircuit connection expand to different widths.
    WidthMismatch,
    /// The wire registry did not hand the reserved constant names the ids 0
    /// and 1.
    ReservedWireMismatch,
    /// A module's input wire ids do not form one contiguous block.
    NonContiguousInputs,
    /// A module's output wire ids do not form one contiguous block.
    NonContiguousOutputs,
}

/// The two pieces of a `pin=wire` pair: the characters before the first
/// `=`, and the characters between the first and second (or last) `=`.
/// Nothing when the pair has no `=` at all.
pub open spec fn spec_parse_split(s: Seq<char>) -> Option<(Seq<char>, Seq<char>)> {
    let i = first_idx(s, '=');
    if i >= s.len() {
        None
    } else {
        let rest = s.skip(i + 1);
        let j = first_idx(rest, '=');
        Some((s.take(i), rest.take(j)))
    }
}

/// Parses single wire pairs of the format `parent=child`.  Returns
/// `(parent, child)`, or nothing when the pair has no `=`.
pub fn parse_split<'a>(pair: &'a str) -> (r: Option<(&'a str, &'a str)>)
    ensures
        match r {
            Some(p) => spec_parse_split(pair@) == Some((p.0@, p.1@)),
            None => spec_parse_split(pair@) is None,
        },
{
    let len = pair.unicode_len();
    match find_char(pair, '=') {
        None => {
            proof {
                lemma_first_idx_absent(pair@, '=');
            }
            None
        },
        Some(i) => {
            proof {
                lemma_first_idx_found(pair@, '=', i as int);
            }
            let first = pair.substring_char(0, i);
            let rest = str_suffix_from(pair, i + 1);
            let j = match find_char(rest, '=') {
                Some(j) => {
                    proof {
                        lemma_first_idx_found(rest@, '=', j as int);
                    }
                    j
                },
                None => {
                    proof {
                        lemma_first_idx_absent(rest@, '=');
                    }
                    len - (i + 1)
                },
            };
            let second = rest.substring_char(0, j);
            proof {
                assert(first@ =~= pair@.take(i as int));
                assert(second@ =~= rest@.take(first_idx(rest@, '=')));
            }
            Some((first, second))
        },
    }
}

/// The operand, output wire and input wires of a `.gate` line's tokens: the
/// first token is the operand, the last token's `=`-pair names the output,
/// and each middle token's `=`-pair names one input.  Nothing when a token
/// that needs an `=` has none, or the line is too short.
pub open spec fn spec_parse_gate(tokens: Seq<Seq<char>>) -> Option<
    (Seq<char>, Seq<char>, Seq<Seq<char>>),
> {
    if tokens.len() < 2 {
        None
    } else if spec_parse_split(tokens.last()) is None {
        None
    } else if exists|j: int| 1 <= j < tokens.len() - 1 && spec_parse_split(#[trigger] tokens[j]) is None {
        None
    } else {
        Some(
            (
                tokens[0],
                (spec_parse_split(tokens.last())->0).1,
                tokens.subrange(1, tokens.len() - 1).map(
                    |k: int, t: Seq<char>| (spec_parse_split(t)->0).1,
                ),
            ),
        )
    }
}

/// Parses a gate line's tokens into an operand, an output wire, and input
/// wires.  Returns in that order.
pub fn parse_gate(line: &Vec<String>) -> (r: Option<(String, String, Vec<String>)>)
    ensures
        match r {
            Some(p) => spec_parse_gate(line.deep_view()) == Some(
                (p.0@, p.1@, p.2.deep_view()),
            ),
            None => spec_parse_gate(line.deep_view()) is None,
        },
{
    let ghost tokens = line.deep_view();
    if line.len() < 2 {
        return None;
    }
    let op = line[0].clone();
    let out = match parse_split(line[line.len() - 1].as_str()) {
        None => {
            proof {
                assert(tokens.last() == line[line.len() - 1]@);
            }
            return None;
        },
        Some(p) => String::from_str(p.1),
    };
    let mut inputs: Vec<String> = Vec::new();
    let mut k: usize = 1;
    while k < line.len() - 1
        invariant
            tokens == line.deep_view(),
            line@.len() >= 2,
            line@.len() <= usize::MAX,
            1 <= k <= line@.len() - 1,
            forall|j: int| 1 <= j < k ==> spec_parse_split(#[trigger] tokens[j]) is Some,
            inputs.deep_view() =~= tokens.subrange(1, k as int).map(
                |m: int, t: Seq<char>| (spec_parse_split(t)->0).1,
            ),
        decreases line@.len() - k,
    {
        match parse_split(line[k].as_str()) {
            None => {
                proof {
                    assert(tokens[k as int] == line@[k as int]@);
                    assert(spec_parse_split(tokens[k as int]) is None);
                }
                return None;
            },
            Some(p) => {
                let ghost old_inputs = inputs.deep_view();
                inputs.push(String::from_str(p.1));
                proof {
                    assert(inputs.deep_view() =~= old_inputs.push(p.1@));
                    assert(inputs.deep_view() =~= tokens.subrange(1, k + 1).map(
                        |m: int, t: Seq<char>| (spec_parse_split(t)->0).1,
                    ));
                }
            },
        }
        k = k + 1;
    }
    proof {
        assert(tokens.subrange(1, tokens.len() - 1) =~= tokens.subrange(
            1,
            line@.len() - 1,
        ));
        assert(op@ == tokens[0]);
    }
    Some((op, out, inputs))
}

/// The name and connection pairs of a `.subckt` line's tokens: the first
/// token names the child module, and each following token's `=`-pair is one
/// `(child_pin, parent_wire)` connection.
pub open spec fn spec_parse_subcircuit(tokens: Seq<Seq<char>>) -> Option<
    (Seq<char>, Seq<(Seq<char>, Seq<char>)>),
> {
    if tokens.len() < 1 {
        None
    } else if exists|j: int| 1 <= j < tokens.len() && spec_parse_split(#[trigger] tokens[j]) is None {
        None
    } else {
        Some(
            (
                tokens[0],
                tokens.subrange(1, tokens.len() as int).map(
                    |k: int, t: Seq<char>| spec_parse_split(t)->0,
                ),
            ),
        )
    }
}

/// Parses a subcircuit line's tokens into the name of the child circuit,
/// then the list of I/O connections.
pub fn parse_subcircuit(line: &Vec<String>) -> (r: Option<(String, Vec<(String, String)>)>)
    ensures
        match r {
            Some(p) => spec_parse_subcircuit(line.deep_view()) == Some(
                (p.0@, p.1@.map(|k: int, q: (String, String)| (q.0@, q.1@))),
            ),
            None => spec_parse_subcircuit(line.deep_view()) is None,
        },
{
    let ghost tokens = line.deep_view();
    if line.len() < 1 {
        return None;
    }
    let name = line[0].clone();
    let mut io: Vec<(String, String)> = Vec::new();
    let mut k: usize = 1;
    while k < line.len()
        invariant
            tokens == line.deep_view(),
            line@.len() >= 1,
            line@.len() <= usize::MAX,
            1 <= k <= line@.len(),
            forall|j: int| 1 <= j < k ==> spec_parse_split(#[trigger] tokens[j]) is Some,
            io@.map(|m: int, q: (String, String)| (q.0@, q.1@)) =~= tokens.subrange(
                1,
                k as int,
            ).map(|m: int, t: Seq<char>| spec_parse_split(t)->0),
        decreases line@.len() - k,
    {
        match parse_split(line[k].as_str()) {
            None => {
                proof {
                    assert(tokens[k as int] == line@[k as int]@);
                    assert(spec_parse_split(tokens[k as int]) is None);
                }
                return None;
            },
            Some(p) => {
                let ghost old_io = io@.map(|m: int, q: (String, String)| (q.0@, q.1@));
                io.push((String::from_str(p.0), String::from_str(p.1)));
                proof {
                    assert(io@.map(|m: int, q: (String, String)| (q.0@, q.1@)) =~= old_io.push(
                        (p.0@, p.1@),
                    ));
                    assert(io@.map(|m: int, q: (String, String)| (q.0@, q.1@)) =~= tokens.subrange(
                        1,
                        k + 1,
                    ).map(|m: int, t: Seq<char>| spec_parse_split(t)->0));
                }
            },
        }
        k = k + 1;
    }
    proof {
        assert(tokens.subrange(1, tokens.len() as int) =~= tokens.subrange(1, line@.len() as int));
        assert(name@ == tokens[0]);
    }
    Some((name, io))
}

/// The base of an I/O token: its characters before the first `[`, or the
/// whole token if it has none.
pub open spec fn token_base(t: Seq<char>) -> Seq<char> {
    t.take(first_idx(t, '['))
}

/// True when a sequence starts with the given prefix.
pub open spec fn spec_starts_with(t: Seq<char>, p: Seq<char>) -> bool {
    t.len() >= p.len() && t.subrange(0, p.len() as int) == p
}

/// How many leading tokens start with the given base.
pub open spec fn run_len(tokens: Seq<Seq<char>>, base: Seq<char>) -> int
    decreases tokens.len(),
{
    if tokens.len() == 0 {
        0
    } else if spec_starts_with(tokens[0], base) {
        1 + run_len(tokens.drop_first(), base)
    } else {
        0
    }
}

proof fn lemma_run_len_at(tokens: Seq<Seq<char>>, base: Seq<char>, k: int)
    requires
        0 <= k <= tokens.len(),
        forall|j: int| 0 <= j < k ==> spec_starts_with(#[trigger] tokens[j], base),
        k == tokens.len() || !spec_starts_with(tokens[k as int], base),
    ensures
        run_len(tokens, base) == k,
    decreases k,
{
    if k > 0 {
        lemma_run_len_at(tokens.drop_first(), base, k - 1);
    }
}

proof fn lemma_token_base_prefix(t: Seq<char>)
    ensures
        spec_starts_with(t, token_base(t)),
        token_base(t).len() <= t.len(),
{
    lemma_first_idx(t, '[');
    assert(t.subrange(0, token_base(t).len() as int) =~= token_base(t));
}

/// An I/O line's tokens grouped into chunks of consecutive tokens that
/// share the leading token's base (its characters before the first `[`), so
/// that the bits of one bus stay together.
pub open spec fn spec_parse_io(tokens: Seq<Seq<char>>) -> Seq<Seq<Seq<char>>>
    decreases tokens.len(),
    via spec_parse_io_decreases
{
    if tokens.len() == 0 {
        seq![]
    } else {
        let k = run_len(tokens, token_base(tokens[0]));
        seq![tokens.take(k)] + spec_parse_io(tokens.skip(k))
    }
}

#[via_fn]
proof fn spec_parse_io_decreases(tokens: Seq<Seq<char>>) {
    if tokens.len() > 0 {
        lemma_token_base_prefix(tokens[0]);
        lemma_run_len_bounds(tokens, token_base(tokens[0]));
    }
}

proof fn lemma_run_len_bounds(tokens: Seq<Seq<char>>, base: Seq<char>)
    ensures
        0 <= run_len(tokens, base) <= tokens.len(),
        tokens.len() > 0 && spec_starts_with(tokens[0], base) ==> run_len(tokens, base) >= 1,
    decreases tokens.len(),
{
    if tokens.len() > 0 && spec_starts_with(tokens[0], base) {
        lemma_run_len_bounds(tokens.drop_first(), base);
    }
}

/// Parses a line of inputs or outputs into chunks of wires that share a
/// base name, keeping the bits of one bus together.
pub fn parse_io(line: &Vec<String>) -> (r: Vec<Vec<String>>)
    ensures
        r.deep_view() == spec_parse_io(line.deep_view()),
{
    let ghost tokens = line.deep_view();
    let mut out: Vec<Vec<String>> = Vec::new();
    let mut p: usize = 0;
    let n = line.len();
    proof {
        assert(tokens.skip(0) =~= tokens);
        assert(out.deep_view() + spec_parse_io(tokens) =~= spec_parse_io(tokens));
    }
    while p < line.len()
        invariant
            tokens == line.deep_view(),
            n == line@.len(),
            0 <= p <= line@.len(),
            out.deep_view() + spec_parse_io(tokens.skip(p as int)) == spec_parse_io(tokens),
        decreases line@.len() - p,
    {
        let ghost rest = tokens.skip(p as int);
        let start = line[p].as_str();
        let base = match find_char(start, '[') {
            Some(i) => {
                proof {
                    lemma_first_idx_found(start@, '[', i as int);
                }
                start.substring_char(0, i)
            },
            None => {
                proof {
                    lemma_first_idx_absent(start@, '[');
                    assert(start@.take(start@.len() as int) =~= start@);
                }
                start
            },
        };
        proof {
            assert(base@ =~= token_base(rest[0]));
        }
        let mut chunk: Vec<String> = Vec::new();
        chunk.push(line[p].clone());
        let mut k: usize = 1;
        proof {
            lemma_token_base_prefix(rest[0]);
            assert(chunk.deep_view() =~= rest.take(1));
        }
        while p + k < line.len() && str_starts_with(line[p + k].as_str(), base)
            invariant
                tokens == line.deep_view(),
                n == line@.len(),
                0 <= p < line@.len(),
                1 <= k,
                p + k <= line@.len(),
                rest == tokens.skip(p as int),
                base@ == token_base(rest[0]),
                forall|j: int| 0 <= j < k ==> spec_starts_with(#[trigger] rest[j], base@),
                chunk.deep_view() =~= rest.take(k as int),
            decreases line@.len() - p - k,
        {
            let ghost old_chunk = chunk.deep_view();
            chunk.push(line[p + k].clone());
            proof {
                assert(rest[k as int] == tokens[p + k]);
                assert(chunk.deep_view() =~= old_chunk.push(rest[k as int]));
                assert(chunk.deep_view() =~= rest.take(k + 1));
            }
            k = k + 1;
        }
        proof {
            if p + k < line@.len() {
                assert(rest[k as int] == tokens[p + k]);
            }
            lemma_run_len_at(rest, base@, k as int);
            let ghost old_out = out.deep_view();
            assert(spec_parse_io(rest) == seq![rest.take(k as int)] + spec_parse_io(
                rest.skip(k as int),
            ));
        }
        let ghost old_out = out.deep_view();
        out.push(chunk);
        proof {
            assert(out.deep_view() =~= old_out.push(rest.take(k as int)));
            assert(tokens.skip(p + k) =~= rest.skip(k as int));
            assert(out.deep_view() + spec_parse_io(tokens.skip(p + k)) =~= old_out + spec_parse_io(
                rest,
            ));
        }
        p = p + k;
    }
    proof {
        assert(tokens.skip(p as int) =~= Seq::<Seq<char>>::empty());
        assert(out.deep_view() =~= spec_parse_io(tokens));
    }
    out
}

/// The base name and bus index a wire name decomposes to: `base[idx]`
/// yields the base and the index, a bare name yields the name and index
/// zero.  Nothing when the bracketed index is unterminated, not a decimal
/// number, or oversized.
pub open spec fn spec_base_name_and_width(s: Seq<char>) -> Option<(Seq<char>, int)> {
    let i = first_idx(s, '[');
    if i >= s.len() {
        Some((s, 0))
    } else {
        let after = s.skip(i + 1);
        let j = first_idx(after, ']');
        if j >= after.len() {
            None
        } else {
            let digits = after.take(j);
            if digits.len() > 0 && is_digit_seq(digits) && dec_val(digits) <= usize::MAX {
                Some((s.take(i), dec_val(digits)))
            } else {
                None
            }
        }
    }
}

/// Splits up a wire that ends with a bit index (`input[3]`) into individual
/// components (`("input", 3)`).  A name without an index gets index zero.
pub fn get_base_name_and_width(unparsed: &str) -> (r: Option<(String, usize)>)
    ensures
        match r {
            Some(p) => spec_base_name_and_width(unparsed@) == Some((p.0@, p.1 as int)),
            None => spec_base_name_and_width(unparsed@) is None,
        },
{
    let ulen = unparsed.unicode_len();
    match find_char(unparsed, '[') {
        None => {
            proof {
                lemma_first_idx_absent(unparsed@, '[');
            }
            Some((String::from_str(unparsed), 0))
        },
        Some(i) => {
            proof {
                lemma_first_idx_found(unparsed@, '[', i as int);
                assert(i < ulen);
            }
            let after = str_suffix_from(unparsed, i + 1);
            match find_char(after, ']') {
                None => {
                    proof {
                        lemma_first_idx_absent(after@, ']');
                    }
                    None
                },
                Some(j) => {
                    proof {
                        lemma_first_idx_found(after@, ']', j as int);
                    }
                    let digits = after.substring_char(0, j);
                    proof {
                        assert(digits@ =~= after@.take(j as int));
                    }
                    match parse_usize(digits) {
                        None => None,
                        Some(idx) => {
                            let base = unparsed.substring_char(0, i);
                            proof {
                                assert(base@ =~= unparsed@.take(i as int));
                            }
                            Some((String::from_str(base), idx))
                        },
                    }
                },
            }
        },
    }
}

/// The scope-qualified form of a wire name: `context::id`, except that the
/// two boolean constant literals stay bare.  Nothing for the rejected
/// `$undef` wire.
pub open spec fn spec_format_wire_id(context: Seq<char>, id: Seq<char>) -> Option<Seq<char>> {
    if id == "$true"@ || id == "$false"@ {
        Some(id)
    } else if id == "$undef"@ {
        None
    } else {
        Some(context + "::"@ + id)
    }
}

/// Returns `{context}::{id}`.  Double colon syntax separates scopes.
/// Ignores `$true` and `$false` and rejects `$undef`.
pub fn format_wire_id(context: &str, id: &str) -> (r: Option<String>)
    ensures
        match r {
            Some(s) => spec_format_wire_id(context@, id@) == Some(s@),
            None => spec_format_wire_id(context@, id@) is None,
        },
{
    if str_eq(id, "$true") || str_eq(id, "$false") {
        Some(String::from_str(id))
    } else if str_eq(id, "$undef") {
        None
    } else {
        let s = String::from_str(context).concat("::").concat(id);
        proof {
            assert(s@ =~= context@ + "::"@ + id@);
        }
        Some(s)
    }
}

/// The individual bit names a possibly packed wire name expands to.  A name
/// holding `_PACKED_<width>` becomes `width` names `base[width * idx + i]`,
/// so one packed bus reference lands on the right absolute bit positions
/// even when the bus is an element of an outer array; any other name stays
/// as it is, alone.  Nothing when the width or index cannot be read or the
/// bit positions would overflow.
pub open spec fn spec_split_wire_id(s: Seq<char>) -> Option<Seq<Seq<char>>> {
    let pat = "_PACKED_"@;
    if !(exists|j: int| has_sub_at(s, pat, j)) {
        Some(seq![s])
    } else {
        match spec_base_name_and_width(s) {
            None => None,
            Some((base, idx)) => {
                let k = first_sub_idx(base, pat);
                if k + pat.len() > base.len() {
                    None
                } else {
                    let name = base.take(k);
                    let width_str = base.skip(k + pat.len());
                    if width_str.len() > 0 && is_digit_seq(width_str) && dec_val(width_str)
                        <= usize::MAX {
                        let width = dec_val(width_str);
                        if width == 0 || width * idx + (width - 1) <= usize::MAX {
                            Some(
                                Seq::new(
                                    width as nat,
                                    |i: int| name + "["@ + dec_digits((width * idx + i) as nat)
                                        + "]"@,
                                ),
                            )
                        } else {
                            None
                        }
                    } else {
                        None
                    }
                }
            },
        }
    }
}

/// Breaks up wires that contain `_PACKED_<width>` into `<width>` bits.  The
/// packing is part of the wire name, so a wire's width is known as soon as
/// the wire is seen.
pub fn split_wire_id(id: &str) -> (r: Option<Vec<String>>)
    ensures
        match r {
            Some(v) => spec_split_wire_id(id@) == Some(v.deep_view()),
            None => spec_split_wire_id(id@) is None,
        },
{
    let ghost pat = "_PACKED_"@;
    proof {
        reveal_strlit("_PACKED_");
        lemma_first_sub_idx(id@, pat);
    }
    match find_sub(id, "_PACKED_") {
        None => {
            let mut v: Vec<String> = Vec::new();
            v.push(String::from_str(id));
            proof {
                assert(v.deep_view() =~= seq![id@]);
            }
            Some(v)
        },
        Some(_) => {
            match get_base_name_and_width(id) {
                None => None,
                Some((base, idx)) => {
                    proof {
                        lemma_first_sub_idx(base@, pat);
                    }
                    match find_sub(base.as_str(), "_PACKED_") {
                        None => {
                            proof {
                                lemma_first_sub_idx(base@, pat);
                            }
                            None
                        },
                        Some(k) => {
                            let blen = base.as_str().unicode_len();
                            let name = base.as_str().substring_char(0, k);
                            let width_str = str_suffix_from(base.as_str(), k + 8);
                            proof {
                                assert(pat.len() == 8);
                                assert(name@ =~= base@.take(k as int));
                                assert(first_sub_idx(base@, pat) == k as int) by {
                                    lemma_first_sub_idx(base@, pat);
                                    if first_sub_idx(base@, pat) < k as int {
                                        assert(has_sub_at(base@, pat, first_sub_idx(base@, pat)));
                                    }
                                };
                            }
                            match parse_usize(width_str) {
                                None => None,
                                Some(width) => {
                                    if width == 0 {
                                        let v: Vec<String> = Vec::new();
                                        proof {
                                            assert(v.deep_view() =~= Seq::new(
                                                0nat,
                                                |i: int| name@ + "["@ + dec_digits(
                                                    (width * idx + i) as nat,
                                                ) + "]"@,
                                            ));
                                        }
                                        return Some(v);
                                    }
                                    let lowbit = match width.checked_mul(idx) {
                                        None => {
                                            return None;
                                        },
                                        Some(lb) => lb,
                                    };
                                    if lowbit.checked_add(width - 1).is_none() {
                                        return None;
                                    }
                                    let mut v: Vec<String> = Vec::new();
                                    let mut i: usize = 0;
                                    while i < width
                                        invariant
                                            0 <= i <= width,
                                            width >= 1,
                                            lowbit == width * idx,
                                            lowbit + (width - 1) <= usize::MAX,
                                            v.deep_view() =~= Seq::new(
                                                i as nat,
                                                |m: int| name@ + "["@ + dec_digits(
                                                    (lowbit + m) as nat,
                                                ) + "]"@,
                                            ),
                                        decreases width - i,
                                    {
                                        let ghost old_v = v.deep_view();
                                        let num = usize_to_string(lowbit + i);
                                        let bit = String::from_str(name).concat("[").concat(
                                            num.as_str(),
                                        ).concat("]");
                                        proof {
                                            assert(bit@ =~= name@ + "["@ + dec_digits(
                                                (lowbit + i) as nat,
                                            ) + "]"@);
                                        }
                                        v.push(bit);
                                        proof {
                                            assert(v.deep_view() =~= old_v.push(
                                                name@ + "["@ + dec_digits((lowbit + i) as nat)
                                                    + "]"@,
                                            ));
                                            assert(v.deep_view() =~= Seq::new(
                                                (i + 1) as nat,
                                                |m: int| name@ + "["@ + dec_digits(
                                                    (lowbit + m) as nat,
                                                ) + "]"@,
                                            ));
                                        }
                                        i = i + 1;
                                    }
                                    proof {
                                        assert(v.deep_view() =~= Seq::new(
                                            width as nat,
                                            |m: int| name@ + "["@ + dec_digits(
                                                (width * idx + m) as nat,
                                            ) + "]"@,
                                        ));
                                    }
                                    Some(v)
                                },
                            }
                        },
                    }
                },
            }
        },
    }
}


/// The contents of one subcircuit instantiation.
#[verifier::ext_equal]
pub struct SubcircuitView {
    /// The child module's name.
    pub name: Seq<char>,
    /// The wire ID connections, as `(parent, subcircuit)` pairs.
    pub connections: Seq<(usize, usize)>,
}

/// The contents of one parsed module.
#[verifier::ext_equal]
pub struct CircuitView<T: WireValue> {
    /// The module's name.
    pub name: Seq<char>,
    /// The module's input wire ids, in declaration order.
    pub inputs: Seq<usize>,
    /// The module's output wire ids, in declaration order.
    pub outputs: Seq<usize>,
    /// The module's flat gate list.
    pub gates: Seq<Operation<T>>,
    /// The module's not-yet-inlined subcircuit instantiations.
    pub subcircuits: Seq<SubcircuitView>,
}

/// Defines the relation between a circuit and its subcircuits.
#[derive(Clone, Debug)]
pub struct BlifSubcircuitDesc {
    /// The child module's name.
    pub name: String,
    /// A set of wire ID connections in the format `(parent, subcircuit)`.
    pub connections: Vec<(usize, usize)>,
}

impl View for BlifSubcircuitDesc {
    type V = SubcircuitView;

    open spec fn view(&self) -> SubcircuitView {
        SubcircuitView { name: self.name@, connections: self.connections@ }
    }
}

impl Default for BlifSubcircuitDesc {
    /// An unnamed instantiation with no connections.
    fn default() -> (r: Self)
        ensures
            r@.name =~= Seq::<char>::empty(),
            r@.connections =~= Seq::<(usize, usize)>::empty(),
    {
        BlifSubcircuitDesc { name: String::new(), connections: Vec::new() }
    }
}

/// A set of data that represents the information about a circuit we can
/// glean from the BLIF file.  May have multiple circuits per file.
#[derive(Clone, Debug)]
pub struct BlifCircuitDesc<T: WireValue> {
    /// The module's name.
    pub name: String,
    /// The module's input wire ids, in declaration order.
    pub inputs: Vec<usize>,
    /// The module's output wire ids, in declaration order.
    pub outputs: Vec<usize>,
    /// The module's flat gate list.
    pub gates: Vec<Operation<T>>,
    /// The module's not-yet-inlined subcircuit instantiations.
    pub subcircuits: Vec<BlifSubcircuitDesc>,
}

impl<T: WireValue> View for BlifCircuitDesc<T> {
    type V = CircuitView<T>;

    open spec fn view(&self) -> CircuitView<T> {
        CircuitView {
            name: self.name@,
            inputs: self.inputs@,
            outputs: self.outputs@,
            gates: self.gates@,
            subcircuits: self.subcircuits@.map(|i: int, s: BlifSubcircuitDesc| s@),
        }
    }
}

/// A module pre-seeded with the two constant gates that drive the reserved
/// wires 0 (`$false`) and 1 (`$true`).
pub open spec fn seeded_circuit<T: WireValue>() -> CircuitView<T> {
    CircuitView {
        name: Seq::<char>::empty(),
        inputs: seq![],
        outputs: seq![],
        gates: seq![Operation::<T>::Const(0usize, T::spec_zero()), Operation::<T>::Const(1usize, T::spec_one())],
        subcircuits: seq![],
    }
}

impl<T: WireValue> Default for BlifCircuitDesc<T> {
    /// An unnamed module with no wires and no gates.
    fn default() -> (r: Self)
        ensures
            r@.name =~= Seq::<char>::empty(),
            r@.inputs =~= Seq::<usize>::empty(),
            r@.outputs =~= Seq::<usize>::empty(),
            r@.gates =~= Seq::<Operation<T>>::empty(),
            r@.subcircuits =~= Seq::<SubcircuitView>::empty(),
    {
        let r = BlifCircuitDesc {
            name: String::new(),
            inputs: Vec::new(),
            outputs: Vec::new(),
            gates: Vec::new(),
            subcircuits: Vec::new(),
        };
        proof {
            assert(r@.subcircuits =~= Seq::<SubcircuitView>::empty());
        }
        r
    }
}

/// True when a wire id list covers one contiguous block of ids: it is empty,
/// or its largest and smallest ids are exactly its length apart.
pub open spec fn contiguous(ws: Seq<usize>) -> bool {
    ws.len() == 0 || crate::analysis::max_from(ws, 0) - crate::analysis::min_from(ws, usize::MAX)
        == ws.len() - 1
}

proof fn lemma_max_from_covers(s: Seq<usize>, acc: usize)
    ensures
        crate::analysis::max_from(s, acc) >= acc,
        forall|i: int| 0 <= i < s.len() ==> crate::analysis::max_from(s, acc) >= #[trigger] s[i],
    decreases s.len(),
{
    if s.len() > 0 {
        lemma_max_from_covers(s.drop_first(), crate::analysis::wire_max(acc, s[0]));
        assert forall|i: int| 0 <= i < s.len() implies crate::analysis::max_from(s, acc)
            >= #[trigger] s[i] by {
            if i > 0 {
                assert(s.drop_first()[i - 1] == s[i]);
            }
        }
    }
}

proof fn lemma_min_from_covers(s: Seq<usize>, acc: usize)
    ensures
        crate::analysis::min_from(s, acc) <= acc,
        forall|i: int| 0 <= i < s.len() ==> crate::analysis::min_from(s, acc) <= #[trigger] s[i],
    decreases s.len(),
{
    if s.len() > 0 {
        lemma_min_from_covers(s.drop_first(), crate::analysis::wire_min(acc, s[0]));
        assert forall|i: int| 0 <= i < s.len() implies crate::analysis::min_from(s, acc)
            <= #[trigger] s[i] by {
            if i > 0 {
                assert(s.drop_first()[i - 1] == s[i]);
            }
        }
    }
}

impl<T: WireValue> BlifCircuitDesc<T> {
    /// Record one child-module instantiation.
    pub fn add_subcircuit(&mut self, sub: BlifSubcircuitDesc)
        ensures
            final(self)@.subcircuits == old(self)@.subcircuits.push(sub@),
            final(self)@.name == old(self)@.name,
            final(self)@.inputs == old(self)@.inputs,
            final(self)@.outputs == old(self)@.outputs,
            final(self)@.gates == old(self)@.gates,
    {
        let ghost pre = self@.subcircuits;
        self.subcircuits.push(sub);
        proof {
            assert(self@.subcircuits =~= pre.push(sub@));
        }
    }

    /// Checks that input and output wires are contiguous blocks, which they
    /// should be in the top-level circuit after the interning process.  It
    /// doesn't necessarily have to be true for anything but the top-level.
    pub fn validate_io(&self) -> (r: Result<(), BlifError>)
        ensures
            r is Ok <==> (contiguous(self@.inputs) && contiguous(self@.outputs)),
            !contiguous(self@.inputs) ==> r == Err::<(), BlifError>(BlifError::NonContiguousInputs),
            contiguous(self@.inputs) && !contiguous(self@.outputs) ==> r == Err::<(), BlifError>(
                BlifError::NonContiguousOutputs,
            ),
    {
        if self.inputs.len() > 0 {
            let (mx, mn) = crate::analysis::max_min_wires(&self.inputs, 0, usize::MAX);
            proof {
                lemma_max_from_covers(self@.inputs, 0);
                lemma_min_from_covers(self@.inputs, usize::MAX);
                assert(mn <= self@.inputs[0] <= mx);
            }
            if mx - mn != self.inputs.len() - 1 {
                return Err(BlifError::NonContiguousInputs);
            }
        }
        if self.outputs.len() > 0 {
            let (mx, mn) = crate::analysis::max_min_wires(&self.outputs, 0, usize::MAX);
            proof {
                lemma_max_from_covers(self@.outputs, 0);
                lemma_min_from_covers(self@.outputs, usize::MAX);
                assert(mn <= self@.outputs[0] <= mx);
            }
            if mx - mn != self.outputs.len() - 1 {
                return Err(BlifError::NonContiguousOutputs);
            }
        }
        Ok(())
    }
}

/// This trait lets us introduce some genericity into the parsing process:
/// boolean and arithmetic variants of gates are constructed from different
/// opcode tables, since the names of gates in an arithmetic context and a
/// boolean context differ.
pub trait CanConstructVariant<T: WireValue> {
    /// What an opcode token constructs from the given wires and
    /// optional constant, if the domain supports it and the wires suffice.
    spec fn spec_variant(op: Seq<char>, out: usize, inputs: Seq<usize>, cons: Option<T>) -> Option<
        Operation<T>,
    >;

    /// The domain value a constant token reads as, if any.
    spec fn spec_constant_token(s: Seq<char>) -> Option<T>;

    /// Turn an opcode and wires into an `Operation`.
    fn construct_variant(op: &str, out: usize, inputs: &Vec<usize>, cons: Option<T>) -> (r: Result<
        Operation<T>,
        BlifError,
    >)
        ensures
            match Self::spec_variant(op@, out, inputs@, cons) {
                Some(g) => r == Ok::<Operation<T>, BlifError>(g),
                None => r == Err::<Operation<T>, BlifError>(BlifError::UnsupportedGate),
            },
    ;

    /// Read a constant token as a domain value.
    fn constant_from_str(s: &str) -> (r: Result<T, BlifError>)
        ensures
            match Self::spec_constant_token(s@) {
                Some(c) => r == Ok::<T, BlifError>(c),
                None => r == Err::<T, BlifError>(BlifError::BadConstant),
            },
    ;
}

/// The whole state of one parse: the wire registry, the module being
/// accumulated, the modules already finished, and the first error hit.
#[verifier::ext_equal]
pub struct ParserView<T: WireValue> {
    /// The interned wire names, in id order.
    pub hasher: Seq<Seq<char>>,
    /// The module being accumulated.
    pub current: CircuitView<T>,
    /// The finished modules, in the order their `.end` markers appeared.
    pub queued: Seq<CircuitView<T>>,
    /// The first error the parse hit, if any.
    pub failed: Option<BlifError>,
}

/// The parse state after a fatal error: everything stops.
pub open spec fn fail_step<T: WireValue>(st: ParserView<T>, e: BlifError) -> ParserView<T> {
    ParserView { failed: Some(e), ..st }
}

/// A wire name qualified with its module scope and interned: the registry
/// after, and the id handed out.
pub open spec fn spec_intern_one(h: Seq<Seq<char>>, module: Seq<char>, name: Seq<char>) -> Result<
    (Seq<Seq<char>>, usize),
    BlifError,
> {
    match spec_format_wire_id(module, name) {
        None => Err(BlifError::UndefinedWire),
        Some(f) => Ok((intern_names(h, f), intern_id(h, f) as usize)),
    }
}

/// A list of wire names qualified and interned in order.
pub open spec fn spec_intern_all(
    h: Seq<Seq<char>>,
    module: Seq<char>,
    names: Seq<Seq<char>>,
) -> Result<(Seq<Seq<char>>, Seq<usize>), BlifError>
    decreases names.len(),
{
    if names.len() == 0 {
        Ok((h, seq![]))
    } else {
        match spec_intern_one(h, module, names[0]) {
            Err(e) => Err(e),
            Ok((h2, id)) => match spec_intern_all(h2, module, names.drop_first()) {
                Err(e) => Err(e),
                Ok((h3, ids)) => Ok((h3, seq![id] + ids)),
            },
        }
    }
}

/// One I/O chunk expanded into individual bit names.  The chunk's members
/// are taken in reverse order (the source convention numbers multi-bit
/// ports high-to-low while wire evaluation wants low-to-high), and each
/// member's packed form is expanded in place.
pub open spec fn expand_chunk(chunk: Seq<Seq<char>>) -> Option<Seq<Seq<char>>>
    decreases chunk.len(),
{
    if chunk.len() == 0 {
        Some(seq![])
    } else {
        match spec_split_wire_id(chunk.last()) {
            None => None,
            Some(bits) => match expand_chunk(chunk.drop_last()) {
                None => None,
                Some(rest) => Some(bits + rest),
            },
        }
    }
}

/// All I/O chunks of a line expanded into one flat list of bit names.
pub open spec fn expand_chunks(chunks: Seq<Seq<Seq<char>>>) -> Option<Seq<Seq<char>>>
    decreases chunks.len(),
{
    if chunks.len() == 0 {
        Some(seq![])
    } else {
        match expand_chunk(chunks[0]) {
            None => None,
            Some(bits) => match expand_chunks(chunks.drop_first()) {
                None => None,
                Some(rest) => Some(bits + rest),
            },
        }
    }
}

/// The parse state after an `.inputs` or `.outputs` line: the line's tokens
/// are chunked by base name, expanded to bits in per-chunk reverse order,
/// qualified, interned, and appended to the module's wire list.
pub open spec fn io_step<T: WireValue>(
    st: ParserView<T>,
    tokens: Seq<Seq<char>>,
    is_input: bool,
) -> ParserView<T> {
    match expand_chunks(spec_parse_io(tokens.drop_first())) {
        None => fail_step(st, BlifError::BadWireIndex),
        Some(names) => match spec_intern_all(st.hasher, st.current.name, names) {
            Err(e) => fail_step(st, e),
            Ok((h2, ids)) => ParserView {
                hasher: h2,
                current: if is_input {
                    CircuitView { inputs: st.current.inputs + ids, ..st.current }
                } else {
                    CircuitView { outputs: st.current.outputs + ids, ..st.current }
                },
                ..st
            },
        },
    }
}

/// The parse state after a `.gate` line: the output wire and then the input
/// wires are qualified and interned, and the domain's opcode table builds
/// each one.
pub open spec fn gate_step<T: WireValue, P: CanConstructVariant<T>>(
    st: ParserView<T>,
    tokens: Seq<Seq<char>>,
) -> ParserView<T> {
    match spec_parse_gate(tokens.drop_first()) {
        None => fail_step(st, BlifError::MalformedLine),
        Some(parts) => match spec_intern_one(st.hasher, st.current.name, parts.1) {
            Err(e) => fail_step(st, e),
            Ok((h2, out_id)) => match spec_intern_all(h2, st.current.name, parts.2) {
                Err(e) => fail_step(st, e),
                Ok((h3, input_ids)) => match P::spec_variant(parts.0, out_id, input_ids, None) {
                    None => fail_step(st, BlifError::UnsupportedGate),
                    Some(g) => ParserView {
                        hasher: h3,
                        current: CircuitView { gates: st.current.gates.push(g), ..st.current },
                        ..st
                    },
                },
            },
        },
    }
}

/// The two sides of one subcircuit connection expanded to bit names.  When
/// only the parent side is a boolean constant literal while the child side
/// is packed, the literal is broadcast across the child's width; any other
/// width mismatch is fatal.
pub open spec fn expand_connection(child: Seq<char>, parent: Seq<char>) -> Result<
    (Seq<Seq<char>>, Seq<Seq<char>>),
    BlifError,
> {
    match spec_split_wire_id(child) {
        None => Err(BlifError::BadWireIndex),
        Some(cu) => match spec_split_wire_id(parent) {
            None => Err(BlifError::BadWireIndex),
            Some(pu) => {
                if cu.len() == pu.len() {
                    Ok((cu, pu))
                } else if parent == "$false"@ || parent == "$true"@ {
                    Ok((cu, Seq::new(cu.len(), |i: int| parent)))
                } else {
                    Err(BlifError::WidthMismatch)
                }
            },
        },
    }
}

/// The expanded bit connections of one subcircuit connection, parent side
/// consumed in reverse order of the child side (the bit-order inversion
/// between parent and child bus conventions), parent wire interned before
/// child wire.
pub open spec fn spec_intern_connections(
    h: Seq<Seq<char>>,
    module: Seq<char>,
    child_module: Seq<char>,
    cu: Seq<Seq<char>>,
    pu: Seq<Seq<char>>,
) -> Result<(Seq<Seq<char>>, Seq<(usize, usize)>), BlifError>
    decreases cu.len(),
{
    if cu.len() == 0 || pu.len() == 0 {
        Ok((h, seq![]))
    } else {
        match spec_intern_one(h, module, pu.last()) {
            Err(e) => Err(e),
            Ok((h2, pid)) => match spec_intern_one(h2, child_module, cu[0]) {
                Err(e) => Err(e),
                Ok((h3, cid)) => match spec_intern_connections(
                    h3,
                    module,
                    child_module,
                    cu.drop_first(),
                    pu.drop_last(),
                ) {
                    Err(e) => Err(e),
                    Ok((h4, rest)) => Ok((h4, seq![(pid, cid)] + rest)),
                },
            },
        }
    }
}

/// All pin pairings of a `.subckt` line expanded and interned in order.
pub open spec fn spec_intern_pairings(
    h: Seq<Seq<char>>,
    module: Seq<char>,
    child_module: Seq<char>,
    pairings: Seq<(Seq<char>, Seq<char>)>,
) -> Result<(Seq<Seq<char>>, Seq<(usize, usize)>), BlifError>
    decreases pairings.len(),
{
    if pairings.len() == 0 {
        Ok((h, seq![]))
    } else {
        match expand_connection(pairings[0].0, pairings[0].1) {
            Err(e) => Err(e),
            Ok(sides) => match spec_intern_connections(h, module, child_module, sides.0, sides.1) {
                Err(e) => Err(e),
                Ok((h2, conns)) => match spec_intern_pairings(
                    h2,
                    module,
                    child_module,
                    pairings.drop_first(),
                ) {
                    Err(e) => Err(e),
                    Ok((h3, rest)) => Ok((h3, conns + rest)),
                },
            },
        }
    }
}

/// The parse state after a `.subckt` line: one child-module instantiation
/// is recorded with its expanded, interned pin connections.
pub open spec fn subckt_step<T: WireValue>(st: ParserView<T>, tokens: Seq<Seq<char>>) -> ParserView<
    T,
> {
    match spec_parse_subcircuit(tokens.drop_first()) {
        None => fail_step(st, BlifError::MalformedLine),
        Some(parts) => match spec_intern_pairings(st.hasher, st.current.name, parts.0, parts.1) {
            Err(e) => fail_step(st, e),
            Ok((h2, conns)) => ParserView {
                hasher: h2,
                current: CircuitView {
                    subcircuits: st.current.subcircuits.push(
                        SubcircuitView { name: parts.0, connections: conns },
                    ),
                    ..st.current
                },
                ..st
            },
        },
    }
}

/// The parse state after a `.names` or `.conn` line: a single buffer gate
/// wiring the line's first wire to its last.
pub open spec fn conn_step<T: WireValue, P: CanConstructVariant<T>>(
    st: ParserView<T>,
    tokens: Seq<Seq<char>>,
) -> ParserView<T> {
    if tokens.len() < 3 {
        fail_step(st, BlifError::MalformedLine)
    } else {
        match spec_intern_one(st.hasher, st.current.name, tokens[1]) {
            Err(e) => fail_step(st, e),
            Ok((h2, from_id)) => match spec_intern_one(h2, st.current.name, tokens.last()) {
                Err(e) => fail_step(st, e),
                Ok((h3, to_id)) => match P::spec_variant("BUF"@, to_id, seq![from_id], None) {
                    None => fail_step(st, BlifError::UnsupportedGate),
                    Some(g) => ParserView {
                        hasher: h3,
                        current: CircuitView { gates: st.current.gates.push(g), ..st.current },
                        ..st
                    },
                },
            },
        }
    }
}

/// True for a module that holds nothing beyond its two seeded constant
/// gates: no I/O, no own gates, no subcircuits.
pub open spec fn circuit_is_empty<T: WireValue>(c: CircuitView<T>) -> bool {
    c.inputs.len() == 0 && c.outputs.len() == 0 && c.gates.len() == 2 && c.subcircuits.len() == 0
}

/// The parse state after an `.end` line: a finished module is queued, an
/// empty one is dropped, and either way a fresh pre-seeded module opens so
/// a following module can continue accumulating.
pub open spec fn end_step<T: WireValue>(st: ParserView<T>) -> ParserView<T> {
    if circuit_is_empty(st.current) {
        ParserView { current: seeded_circuit::<T>(), ..st }
    } else {
        ParserView { current: seeded_circuit::<T>(), queued: st.queued.push(st.current), ..st }
    }
}

/// The parse state after a `.model` line: the current module takes its
/// name.
pub open spec fn model_step<T: WireValue>(st: ParserView<T>, tokens: Seq<Seq<char>>) -> ParserView<
    T,
> {
    if tokens.len() < 2 {
        fail_step(st, BlifError::MalformedLine)
    } else {
        ParserView { current: CircuitView { name: tokens[1], ..st.current }, ..st }
    }
}

/// The parse state after one line: the line is trimmed, tokenized on
/// spaces, and dispatched on its leading directive; unknown directives are
/// ignored, and nothing happens once the parse has failed.
pub open spec fn line_step<T: WireValue, P: CanConstructVariant<T>>(
    st: ParserView<T>,
    line: Seq<char>,
) -> ParserView<T> {
    if st.failed is Some {
        st
    } else {
        let tokens = split_char(spec_trim(line), ' ');
        let cmd = tokens[0];
        if cmd == ".model"@ {
            model_step(st, tokens)
        } else if cmd == ".inputs"@ {
            io_step(st, tokens, true)
        } else if cmd == ".outputs"@ {
            io_step(st, tokens, false)
        } else if cmd == ".gate"@ {
            gate_step::<T, P>(st, tokens)
        } else if cmd == ".subckt"@ {
            subckt_step(st, tokens)
        } else if cmd == ".names"@ || cmd == ".conn"@ {
            conn_step::<T, P>(st, tokens)
        } else if cmd == ".end"@ {
            end_step(st)
        } else {
            st
        }
    }
}

/// The parse state after a whole list of lines.
pub open spec fn lines_run<T: WireValue, P: CanConstructVariant<T>>(
    st: ParserView<T>,
    lines: Seq<Seq<char>>,
) -> ParserView<T>
    decreases lines.len(),
{
    if lines.len() == 0 {
        st
    } else {
        lines_run::<T, P>(line_step::<T, P>(st, lines[0]), lines.drop_first())
    }
}

/// A failed parse state is final: further lines leave it unchanged.
pub proof fn lemma_lines_run_failed<T: WireValue, P: CanConstructVariant<T>>(
    st: ParserView<T>,
    lines: Seq<Seq<char>>,
)
    requires
        st.failed is Some,
    ensures
        lines_run::<T, P>(st, lines) == st,
    decreases lines.len(),
{
    if lines.len() > 0 {
        lemma_lines_run_failed::<T, P>(st, lines.drop_first());
    }
}

/// The parse of one buffered file against a shared wire registry: the two
/// reserved constant names must map to ids 0 and 1, a fresh pre-seeded
/// module opens, and the lines run in order.
pub open spec fn session_spec<T: WireValue, P: CanConstructVariant<T>>(
    h: Seq<Seq<char>>,
    lines: Seq<Seq<char>>,
) -> ParserView<T> {
    let h1 = intern_names(h, "$false"@);
    let h2 = intern_names(h1, "$true"@);
    let st0 = ParserView {
        hasher: h2,
        current: seeded_circuit::<T>(),
        queued: seq![],
        failed: None,
    };
    if intern_id(h, "$false"@) != 0 || intern_id(h1, "$true"@) != 1 {
        ParserView { failed: Some(BlifError::ReservedWireMismatch), ..st0 }
    } else {
        lines_run::<T, P>(st0, lines)
    }
}

/// A line split on spaces always yields at least one token.
proof fn lemma_split_nonempty(s: Seq<char>, c: char)
    ensures
        split_char(s, c).len() >= 1,
{
    lemma_first_idx(s, c);
}

/// A fresh module pre-seeded with the two constant gates for the reserved
/// wires.
fn seeded_exec<T: WireValue>() -> (r: BlifCircuitDesc<T>)
    ensures
        r@ =~= seeded_circuit::<T>(),
{
    let mut gates: Vec<Operation<T>> = Vec::new();
    gates.push(Operation::Const(0, T::zero()));
    gates.push(Operation::Const(1, T::one()));
    let r = BlifCircuitDesc {
        name: String::new(),
        inputs: Vec::new(),
        outputs: Vec::new(),
        gates,
        subcircuits: Vec::new(),
    };
    proof {
        assert(r@.subcircuits =~= seeded_circuit::<T>().subcircuits);
        assert(r@.gates =~= seeded_circuit::<T>().gates);
    }
    r
}

/// The tokens of a line after its leading directive.
fn tail_tokens(tokens: &Vec<String>) -> (r: Vec<String>)
    requires
        tokens@.len() >= 1,
    ensures
        r.deep_view() == tokens.deep_view().drop_first(),
{
    let mut r: Vec<String> = Vec::new();
    let mut i: usize = 1;
    while i < tokens.len()
        invariant
            1 <= i <= tokens@.len(),
            r.deep_view() =~= tokens.deep_view().subrange(1, i as int),
        decreases tokens@.len() - i,
    {
        let ghost pre = r.deep_view();
        r.push(tokens[i].clone());
        proof {
            assert(tokens[i as int]@ == tokens.deep_view()[i as int]);
            assert(r.deep_view() =~= pre.push(tokens.deep_view()[i as int]));
            assert(r.deep_view() =~= tokens.deep_view().subrange(1, i + 1));
        }
        i = i + 1;
    }
    proof {
        assert(r.deep_view() =~= tokens.deep_view().drop_first());
    }
    r
}

/// One wire name qualified with its module scope and interned.
fn intern_one_exec(hasher: &mut WireHasher, module: &str, name: &str) -> (r: Result<
    usize,
    BlifError,
>)
    ensures
        match spec_intern_one(old(hasher)@, module@, name@) {
            Ok(p) => r == Ok::<usize, BlifError>(p.1) && final(hasher)@ == p.0,
            Err(e) => r == Err::<usize, BlifError>(e) && final(hasher)@ == old(hasher)@,
        },
{
    match format_wire_id(module, name) {
        None => Err(BlifError::UndefinedWire),
        Some(f) => Ok(hasher.get_wire_id(f.as_str())),
    }
}

/// A list of wire names qualified and interned in order.
fn intern_all_exec(hasher: &mut WireHasher, module: &str, names: &Vec<String>) -> (r: Result<
    Vec<usize>,
    BlifError,
>)
    ensures
        match spec_intern_all(old(hasher)@, module@, names.deep_view()) {
            Ok(p) => r matches Ok(v) && v@ == p.1 && final(hasher)@ == p.0,
            Err(e) => r == Err::<Vec<usize>, BlifError>(e),
        },
{
    let ghost h0 = hasher@;
    let ghost namesv = names.deep_view();
    let mut ids: Vec<usize> = Vec::new();
    let mut i: usize = 0;
    proof {
        assert(namesv.skip(0) =~= namesv);
        assert(ids@ + Seq::<usize>::empty() =~= ids@);
    }
    while i < names.len()
        invariant
            h0 == old(hasher)@,
            namesv == names.deep_view(),
            0 <= i <= namesv.len(),
            spec_intern_all(h0, module@, namesv) == (match spec_intern_all(
                hasher@,
                module@,
                namesv.skip(i as int),
            ) {
                Ok(p) => Ok::<(Seq<Seq<char>>, Seq<usize>), BlifError>((p.0, ids@ + p.1)),
                Err(e) => Err::<(Seq<Seq<char>>, Seq<usize>), BlifError>(e),
            }),
        decreases namesv.len() - i,
    {
        proof {
            crate::util::lemma_skip_step(namesv, i as int);
            assert(namesv[i as int] == names@[i as int]@);
        }
        let ghost pre_h = hasher@;
        match intern_one_exec(hasher, module, names[i].as_str()) {
            Err(e) => {
                proof {
                    let rem = namesv.skip(i as int);
                    assert(spec_intern_one(pre_h, module@, rem[0]) == Err::<
                        (Seq<Seq<char>>, usize),
                        BlifError,
                    >(e));
                    assert(spec_intern_all(pre_h, module@, rem) == Err::<
                        (Seq<Seq<char>>, Seq<usize>),
                        BlifError,
                    >(e));
                }
                return Err(e);
            },
            Ok(id) => {
                let ghost old_ids = ids@;
                ids.push(id);
                proof {
                    let rem = namesv.skip(i as int);
                    assert(rem.drop_first() =~= namesv.skip(i as int + 1));
                    match spec_intern_all(hasher@, module@, namesv.skip(i as int + 1)) {
                        Ok(p) => {
                            assert(old_ids + (seq![id] + p.1) =~= ids@ + p.1);
                        },
                        Err(e) => {},
                    }
                }
                i = i + 1;
            },
        }
    }
    proof {
        assert(namesv.skip(namesv.len() as int) =~= Seq::<Seq<char>>::empty());
        assert(ids@ + Seq::<usize>::empty() =~= ids@);
    }
    Ok(ids)
}

/// One I/O chunk expanded into individual bit names, members taken in
/// reverse order.
fn expand_chunk_exec(chunk: &Vec<String>) -> (r: Result<Vec<String>, BlifError>)
    ensures
        match expand_chunk(chunk.deep_view()) {
            Some(names) => r matches Ok(v) && v.deep_view() == names,
            None => r == Err::<Vec<String>, BlifError>(BlifError::BadWireIndex),
        },
{
    let ghost chunkv = chunk.deep_view();
    let mut acc: Vec<String> = Vec::new();
    let mut i: usize = chunk.len();
    proof {
        assert(chunkv.take(i as int) =~= chunkv);
    }
    while i > 0
        invariant
            chunkv == chunk.deep_view(),
            0 <= i <= chunkv.len(),
            expand_chunk(chunkv) == (match expand_chunk(chunkv.take(i as int)) {
                Some(rest) => Some(acc.deep_view() + rest),
                None => None::<Seq<Seq<char>>>,
            }),
        decreases i,
    {
        proof {
            assert(chunkv.take(i as int).last() == chunkv[i - 1]);
            assert(chunkv.take(i as int).drop_last() =~= chunkv.take(i - 1));
            assert(chunkv[i - 1] == chunk@[i - 1]@);
        }
        match split_wire_id(chunk[i - 1].as_str()) {
            None => {
                return Err(BlifError::BadWireIndex);
            },
            Some(mut bits) => {
                let ghost old_acc = acc.deep_view();
                let ghost bitsv = bits.deep_view();
                acc.append(&mut bits);
                proof {
                    assert(acc.deep_view() =~= old_acc + bitsv);
                    match expand_chunk(chunkv.take(i - 1)) {
                        Some(rest) => {
                            assert(old_acc + (bitsv + rest) =~= acc.deep_view() + rest);
                        },
                        None => {},
                    }
                }
                i = i - 1;
            },
        }
    }
    proof {
        assert(chunkv.take(0) =~= Seq::<Seq<char>>::empty());
        assert(acc.deep_view() + Seq::<Seq<char>>::empty() =~= acc.deep_view());
    }
    Ok(acc)
}

/// All chunks of an I/O line expanded into one flat list of bit names.
fn expand_chunks_exec(chunks: &Vec<Vec<String>>) -> (r: Result<Vec<String>, BlifError>)
    ensures
        match expand_chunks(chunks.deep_view()) {
            Some(names) => r matches Ok(v) && v.deep_view() == names,
            None => r == Err::<Vec<String>, BlifError>(BlifError::BadWireIndex),
        },
{
    let ghost chunksv = chunks.deep_view();
    let mut acc: Vec<String> = Vec::new();
    let mut i: usize = 0;
    proof {
        assert(chunksv.skip(0) =~= chunksv);
    }
    while i < chunks.len()
        invariant
            chunksv == chunks.deep_view(),
            0 <= i <= chunksv.len(),
            expand_chunks(chunksv) == (match expand_chunks(chunksv.skip(i as int)) {
                Some(rest) => Some(acc.deep_view() + rest),
                None => None::<Seq<Seq<char>>>,
            }),
        decreases chunksv.len() - i,
    {
        proof {
            crate::util::lemma_skip_step(chunksv, i as int);
            assert(chunksv[i as int] == chunks@[i as int].deep_view());
        }
        match expand_chunk_exec(&chunks[i]) {
            Err(e) => {
                return Err(BlifError::BadWireIndex);
            },
            Ok(mut bits) => {
                let ghost old_acc = acc.deep_view();
                let ghost bitsv = bits.deep_view();
                acc.append(&mut bits);
                proof {
                    assert(acc.deep_view() =~= old_acc + bitsv);
                    match expand_chunks(chunksv.skip(i as int + 1)) {
                        Some(rest) => {
                            assert(old_acc + (bitsv + rest) =~= acc.deep_view() + rest);
                        },
                        None => {},
                    }
                }
                i = i + 1;
            },
        }
    }
    proof {
        assert(chunksv.skip(chunksv.len() as int) =~= Seq::<Seq<Seq<char>>>::empty());
        assert(acc.deep_view() + Seq::<Seq<char>>::empty() =~= acc.deep_view());
    }
    Ok(acc)
}

/// Handle a `.model` line: the current module takes its name.
fn do_model<T: WireValue>(current: &mut BlifCircuitDesc<T>, tokens: &Vec<String>) -> (r: Result<
    (),
    BlifError,
>)
    requires
        tokens@.len() >= 1,
    ensures
        ({
            let stv = model_step::<T>(
                (ParserView {
                    hasher: seq![],
                    current: old(current)@,
                    queued: seq![],
                    failed: None,
                }),
                tokens.deep_view(),
            );
            match r {
                Ok(u) => stv.failed is None && final(current)@ == stv.current,
                Err(e) => stv.failed == Some(e) && final(current)@ == old(current)@,
            }
        }),
{
    if tokens.len() < 2 {
        return Err(BlifError::MalformedLine);
    }
    current.name = tokens[1].clone();
    proof {
        assert(tokens.deep_view()[1] == tokens@[1]@);
    }
    Ok(())
}

/// Handle an `.inputs` or `.outputs` line: expand, qualify and intern every
/// wire of the line and append the ids to the module's list.
fn do_io<T: WireValue>(
    hasher: &mut WireHasher,
    current: &mut BlifCircuitDesc<T>,
    tokens: &Vec<String>,
    is_input: bool,
) -> (r: Result<(), BlifError>)
    requires
        tokens@.len() >= 1,
    ensures
        ({
            let stv = io_step::<T>(
                (ParserView {
                    hasher: old(hasher)@,
                    current: old(current)@,
                    queued: seq![],
                    failed: None,
                }),
                tokens.deep_view(),
                is_input,
            );
            match r {
                Ok(u) => stv.failed is None && final(hasher)@ == stv.hasher && final(current)@
                    == stv.current,
                Err(e) => stv.failed == Some(e),
            }
        }),
{
    let rest = tail_tokens(tokens);
    let chunks = parse_io(&rest);
    let names = match expand_chunks_exec(&chunks) {
        Err(e) => {
            return Err(BlifError::BadWireIndex);
        },
        Ok(names) => names,
    };
    let module = current.name.clone();
    match intern_all_exec(hasher, module.as_str(), &names) {
        Err(e) => Err(e),
        Ok(mut ids) => {
            let ghost idsv = ids@;
            if is_input {
                let ghost pre = current@.inputs;
                current.inputs.append(&mut ids);
                proof {
                    assert(current@.inputs =~= pre + idsv);
                }
            } else {
                let ghost pre = current@.outputs;
                current.outputs.append(&mut ids);
                proof {
                    assert(current@.outputs =~= pre + idsv);
                }
            }
            Ok(())
        },
    }
}

/// Handle a `.gate` line: intern the output then the input wires and build
/// a new entry from the domain's opcode table.
fn do_gate<T: WireValue, P: CanConstructVariant<T>>(
    hasher: &mut WireHasher,
    current: &mut BlifCircuitDesc<T>,
    tokens: &Vec<String>,
) -> (r: Result<(), BlifError>)
    requires
        tokens@.len() >= 1,
    ensures
        ({
            let stv = gate_step::<T, P>(
                (ParserView {
                    hasher: old(hasher)@,
                    current: old(current)@,
                    queued: seq![],
                    failed: None,
                }),
                tokens.deep_view(),
            );
            match r {
                Ok(u) => stv.failed is None && final(hasher)@ == stv.hasher && final(current)@
                    == stv.current,
                Err(e) => stv.failed == Some(e),
            }
        }),
{
    let rest = tail_tokens(tokens);
    let parsed = match parse_gate(&rest) {
        None => {
            return Err(BlifError::MalformedLine);
        },
        Some(p) => p,
    };
    let module = current.name.clone();
    let out_id = match intern_one_exec(hasher, module.as_str(), parsed.1.as_str()) {
        Err(e) => {
            return Err(e);
        },
        Ok(id) => id,
    };
    let input_ids = match intern_all_exec(hasher, module.as_str(), &parsed.2) {
        Err(e) => {
            return Err(e);
        },
        Ok(v) => v,
    };
    match P::construct_variant(parsed.0.as_str(), out_id, &input_ids, None) {
        Err(e) => Err(e),
        Ok(g) => {
            let ghost pre = current@.gates;
            current.gates.push(g);
            proof {
                assert(current@.gates =~= pre.push(g));
            }
            Ok(())
        },
    }
}

/// Handle a `.names` or `.conn` line: a single buffer gate wiring the
/// line's first wire to its last.
fn do_conn<T: WireValue, P: CanConstructVariant<T>>(
    hasher: &mut WireHasher,
    current: &mut BlifCircuitDesc<T>,
    tokens: &Vec<String>,
) -> (r: Result<(), BlifError>)
    requires
        tokens@.len() >= 1,
    ensures
        ({
            let stv = conn_step::<T, P>(
                (ParserView {
                    hasher: old(hasher)@,
                    current: old(current)@,
                    queued: seq![],
                    failed: None,
                }),
                tokens.deep_view(),
            );
            match r {
                Ok(u) => stv.failed is None && final(hasher)@ == stv.hasher && final(current)@
                    == stv.current,
                Err(e) => stv.failed == Some(e),
            }
        }),
{
    if tokens.len() < 3 {
        return Err(BlifError::MalformedLine);
    }
    let module = current.name.clone();
    let from_id = match intern_one_exec(hasher, module.as_str(), tokens[1].as_str()) {
        Err(e) => {
            return Err(e);
        },
        Ok(id) => id,
    };
    let to_id = match intern_one_exec(hasher, module.as_str(), tokens[tokens.len() - 1].as_str()) {
        Err(e) => {
            return Err(e);
        },
        Ok(id) => id,
    };
    let mut from_ids: Vec<usize> = Vec::new();
    from_ids.push(from_id);
    proof {
        assert(from_ids@ =~= seq![from_id]);
        assert(tokens.deep_view().last() == tokens@[tokens@.len() - 1]@);
    }
    match P::construct_variant("BUF", to_id, &from_ids, None) {
        Err(e) => Err(e),
        Ok(g) => {
            let ghost pre = current@.gates;
            current.gates.push(g);
            proof {
                assert(current@.gates =~= pre.push(g));
            }
            Ok(())
        },
    }
}

/// Handle a `.subckt` line: expand and intern every pin connection and
/// record the child-module instantiation.
fn do_subckt<T: WireValue>(
    hasher: &mut WireHasher,
    current: &mut BlifCircuitDesc<T>,
    tokens: &Vec<String>,
) -> (r: Result<(), BlifError>)
    requires
        tokens@.len() >= 1,
    ensures
        ({
            let stv = subckt_step::<T>(
                (ParserView {
                    hasher: old(hasher)@,
                    current: old(current)@,
                    queued: seq![],
                    failed: None,
                }),
                tokens.deep_view(),
            );
            match r {
                Ok(u) => stv.failed is None && final(hasher)@ == stv.hasher && final(current)@
                    == stv.current,
                Err(e) => stv.failed == Some(e),
            }
        }),
{
    let rest = tail_tokens(tokens);
    let parsed = match parse_subcircuit(&rest) {
        None => {
            return Err(BlifError::MalformedLine);
        },
        Some(p) => p,
    };
    let child = parsed.0;
    let io = parsed.1;
    let ghost pairsv = io@.map(|m: int, q: (String, String)| (q.0@, q.1@));
    let module = current.name.clone();
    let ghost h0 = hasher@;
    let mut connections: Vec<(usize, usize)> = Vec::new();
    let mut pi: usize = 0;
    proof {
        assert(pairsv.skip(0) =~= pairsv);
        assert(connections@ + Seq::<(usize, usize)>::empty() =~= connections@);
    }
    while pi < io.len()
        invariant
            h0 == old(hasher)@,
            module@ == old(current)@.name,
            spec_parse_subcircuit(tokens.deep_view().drop_first()) == Some((child@, pairsv)),
            pairsv == io@.map(|m: int, q: (String, String)| (q.0@, q.1@)),
            0 <= pi <= pairsv.len(),
            spec_intern_pairings(h0, module@, child@, pairsv) == (match spec_intern_pairings(
                hasher@,
                module@,
                child@,
                pairsv.skip(pi as int),
            ) {
                Ok(p) => Ok::<(Seq<Seq<char>>, Seq<(usize, usize)>), BlifError>(
                    (p.0, connections@ + p.1),
                ),
                Err(e) => Err::<(Seq<Seq<char>>, Seq<(usize, usize)>), BlifError>(e),
            }),
        decreases pairsv.len() - pi,
    {
        proof {
            crate::util::lemma_skip_step(pairsv, pi as int);
            assert(pairsv[pi as int] == (io@[pi as int].0@, io@[pi as int].1@));
        }
        let ghost h_pi = hasher@;
        let child_name = &io[pi].0;
        let parent_name = &io[pi].1;
        let cu = match split_wire_id(child_name.as_str()) {
            None => {
                proof {
                    assert(spec_intern_pairings(hasher@, module@, child@, pairsv.skip(pi as int))
                        == Err::<(Seq<Seq<char>>, Seq<(usize, usize)>), BlifError>(
                        BlifError::BadWireIndex,
                    ));
                }
                return Err(BlifError::BadWireIndex);
            },
            Some(v) => v,
        };
        let pu = match split_wire_id(parent_name.as_str()) {
            None => {
                proof {
                    assert(spec_intern_pairings(hasher@, module@, child@, pairsv.skip(pi as int))
                        == Err::<(Seq<Seq<char>>, Seq<(usize, usize)>), BlifError>(
                        BlifError::BadWireIndex,
                    ));
                }
                return Err(BlifError::BadWireIndex);
            },
            Some(v) => v,
        };
        let pu = if cu.len() != pu.len() {
            if str_eq(parent_name.as_str(), "$false") || str_eq(parent_name.as_str(), "$true") {
                let mut broad: Vec<String> = Vec::new();
                let mut b: usize = 0;
                while b < cu.len()
                    invariant
                        0 <= b <= cu@.len(),
                        broad.deep_view() =~= Seq::new(b as nat, |x: int| parent_name@),
                    decreases cu@.len() - b,
                {
                    let ghost pre = broad.deep_view();
                    broad.push(parent_name.clone());
                    proof {
                        assert(broad.deep_view() =~= pre.push(parent_name@));
                        assert(broad.deep_view() =~= Seq::new((b + 1) as nat, |x: int| parent_name@));
                    }
                    b = b + 1;
                }
                broad
            } else {
                proof {
                    assert(spec_intern_pairings(hasher@, module@, child@, pairsv.skip(pi as int))
                        == Err::<(Seq<Seq<char>>, Seq<(usize, usize)>), BlifError>(
                        BlifError::WidthMismatch,
                    ));
                }
                return Err(BlifError::WidthMismatch);
            }
        } else {
            pu
        };
        let ghost cuv = cu.deep_view();
        let ghost puv = pu.deep_view();
        proof {
            assert(expand_connection(pairsv[pi as int].0, pairsv[pi as int].1) == Ok::<
                (Seq<Seq<char>>, Seq<Seq<char>>),
                BlifError,
            >((cuv, puv)));
        }
        let n = cu.len();
        let mut cvec: Vec<(usize, usize)> = Vec::new();
        let mut k: usize = 0;
        proof {
            assert(cuv.skip(0) =~= cuv);
            assert(puv.take(n as int) =~= puv);
            assert(cvec@ + Seq::<(usize, usize)>::empty() =~= cvec@);
        }
        while k < n
            invariant
                h0 == old(hasher)@,
                module@ == old(current)@.name,
                spec_parse_subcircuit(tokens.deep_view().drop_first()) == Some((child@, pairsv)),
                0 <= pi < pairsv.len(),
                expand_connection(pairsv[pi as int].0, pairsv[pi as int].1) == Ok::<
                    (Seq<Seq<char>>, Seq<Seq<char>>),
                    BlifError,
                >((cuv, puv)),
                spec_intern_pairings(h0, module@, child@, pairsv) == (match spec_intern_pairings(
                    h_pi,
                    module@,
                    child@,
                    pairsv.skip(pi as int),
                ) {
                    Ok(p) => Ok::<(Seq<Seq<char>>, Seq<(usize, usize)>), BlifError>(
                        (p.0, connections@ + p.1),
                    ),
                    Err(e) => Err::<(Seq<Seq<char>>, Seq<(usize, usize)>), BlifError>(e),
                }),
                n == cuv.len(),
                n == puv.len(),
                n == cu@.len(),
                n == pu@.len(),
                cuv == cu.deep_view(),
                puv == pu.deep_view(),
                0 <= k <= n,
                spec_intern_connections(h_pi, module@, child@, cuv, puv) == (match
                    spec_intern_connections(
                    hasher@,
                    module@,
                    child@,
                    cuv.skip(k as int),
                    puv.take((n - k) as int),
                ) {
                    Ok(p) => Ok::<(Seq<Seq<char>>, Seq<(usize, usize)>), BlifError>(
                        (p.0, cvec@ + p.1),
                    ),
                    Err(e) => Err::<(Seq<Seq<char>>, Seq<(usize, usize)>), BlifError>(e),
                }),
            decreases n - k,
        {
            proof {
                crate::util::lemma_skip_step(cuv, k as int);
                assert(cuv.skip(k as int)[0] == cuv[k as int]);
                assert(puv.take((n - k) as int).last() == puv[n - k - 1]);
                assert(puv.take((n - k) as int).drop_last() =~= puv.take((n - k - 1) as int));
                assert(cuv[k as int] == cu@[k as int]@);
                assert(puv[n - k - 1] == pu@[n - k - 1]@);
            }
            let ghost h_k = hasher@;
            let pid = match intern_one_exec(hasher, module.as_str(), pu[n - 1 - k].as_str()) {
                Err(e) => {
                    proof {
                        assert(spec_intern_connections(
                            h_k,
                            module@,
                            child@,
                            cuv.skip(k as int),
                            puv.take((n - k) as int),
                        ) == Err::<(Seq<Seq<char>>, Seq<(usize, usize)>), BlifError>(e));
                        assert(spec_intern_connections(h_pi, module@, child@, cuv, puv) == Err::<
                            (Seq<Seq<char>>, Seq<(usize, usize)>),
                            BlifError,
                        >(e));
                        crate::util::lemma_skip_step(pairsv, pi as int);
                        assert(spec_intern_pairings(h_pi, module@, child@, pairsv.skip(pi as int))
                            == Err::<(Seq<Seq<char>>, Seq<(usize, usize)>), BlifError>(e));
                        assert(spec_intern_pairings(h0, module@, child@, pairsv) == Err::<
                            (Seq<Seq<char>>, Seq<(usize, usize)>),
                            BlifError,
                        >(e));
                    }
                    return Err(e);
                },
                Ok(id) => id,
            };
            let cid = match intern_one_exec(hasher, child.as_str(), cu[k].as_str()) {
                Err(e) => {
                    proof {
                        assert(spec_intern_connections(
                            h_k,
                            module@,
                            child@,
                            cuv.skip(k as int),
                            puv.take((n - k) as int),
                        ) == Err::<(Seq<Seq<char>>, Seq<(usize, usize)>), BlifError>(e));
                        assert(spec_intern_connections(h_pi, module@, child@, cuv, puv) == Err::<
                            (Seq<Seq<char>>, Seq<(usize, usize)>),
                            BlifError,
                        >(e));
                        crate::util::lemma_skip_step(pairsv, pi as int);
                        assert(spec_intern_pairings(h_pi, module@, child@, pairsv.skip(pi as int))
                            == Err::<(Seq<Seq<char>>, Seq<(usize, usize)>), BlifError>(e));
                        assert(spec_intern_pairings(h0, module@, child@, pairsv) == Err::<
                            (Seq<Seq<char>>, Seq<(usize, usize)>),
                            BlifError,
                        >(e));
                    }
                    return Err(e);
                },
                Ok(id) => id,
            };
            let ghost old_cvec = cvec@;
            cvec.push((pid, cid));
            proof {
                match spec_intern_connections(
                    hasher@,
                    module@,
                    child@,
                    cuv.skip(k as int + 1),
                    puv.take((n - k - 1) as int),
                ) {
                    Ok(p) => {
                        assert(old_cvec + (seq![(pid, cid)] + p.1) =~= cvec@ + p.1);
                    },
                    Err(e) => {},
                }
            }
            k = k + 1;
        }
        proof {
            assert(cuv.skip(n as int) =~= Seq::<Seq<char>>::empty());
            assert(puv.take(0) =~= Seq::<Seq<char>>::empty());
            assert(spec_intern_connections(h_pi, module@, child@, cuv, puv) == Ok::<
                (Seq<Seq<char>>, Seq<(usize, usize)>),
                BlifError,
            >((hasher@, cvec@)));
        }
        let ghost old_conns = connections@;
        let ghost cvecv = cvec@;
        let mut cvec_moved = cvec;
        connections.append(&mut cvec_moved);
        proof {
            assert(connections@ =~= old_conns + cvecv);
            match spec_intern_pairings(hasher@, module@, child@, pairsv.skip(pi as int + 1)) {
                Ok(p) => {
                    assert(old_conns + (cvecv + p.1) =~= connections@ + p.1);
                },
                Err(e) => {},
            }
        }
        pi = pi + 1;
    }
    proof {
        assert(pairsv.skip(pairsv.len() as int) =~= Seq::<(Seq<char>, Seq<char>)>::empty());
        assert(connections@ + Seq::<(usize, usize)>::empty() =~= connections@);
        assert(spec_intern_pairings(h0, module@, child@, pairsv) == Ok::<
            (Seq<Seq<char>>, Seq<(usize, usize)>),
            BlifError,
        >((hasher@, connections@)));
    }
    let sub = BlifSubcircuitDesc { name: child, connections };
    current.add_subcircuit(sub);
    Ok(())
}

/// Parses BLIF netlist text, one buffered file at a time, into per-module
/// circuit descriptors.
pub struct BlifParser<T: WireValue> {
    lines: Vec<String>,
    /// The wire identity registry, shared across all modules and files this
    /// parser reads so that module-scoped names stay stably numbered.
    pub hasher: WireHasher,
    parsed: bool,
    circuit: Vec<BlifCircuitDesc<T>>,
    error: Option<BlifError>,
}

/// The whole state of a parser: the buffered not-yet-parsed lines, the wire
/// registry, whether the buffer has been parsed, the finished module
/// descriptors not yet drained, and the first fatal error.
#[verifier::ext_equal]
pub struct ParserState<T: WireValue> {
    /// The buffered not-yet-parsed lines.
    pub lines: Seq<Seq<char>>,
    /// The interned wire names, in id order.
    pub hasher: Seq<Seq<char>>,
    /// Whether the buffered lines have been parsed.
    pub parsed: bool,
    /// The finished module descriptors, in `.end` order, not yet drained.
    pub queued: Seq<CircuitView<T>>,
    /// The first fatal error the parser hit, if any.
    pub failed: Option<BlifError>,
}

impl<T: WireValue> View for BlifParser<T> {
    type V = ParserState<T>;

    closed spec fn view(&self) -> ParserState<T> {
        ParserState {
            lines: self.lines.deep_view(),
            hasher: self.hasher@,
            parsed: self.parsed,
            queued: self.circuit@.map(|i: int, c: BlifCircuitDesc<T>| c@),
            failed: self.error,
        }
    }
}

/// The parser state after its buffered lines have been parsed: nothing
/// changes when the buffer was already parsed or the parser has failed;
/// otherwise one session runs and its finished modules queue up behind the
/// ones already waiting.
pub open spec fn flush_state<T: WireValue, P: CanConstructVariant<T>>(st: ParserState<T>) -> ParserState<T> {
    if st.parsed || st.failed is Some {
        st
    } else {
        let sv = session_spec::<T, P>(st.hasher, st.lines);
        ParserState {
            lines: seq![],
            hasher: sv.hasher,
            parsed: true,
            queued: st.queued + sv.queued,
            failed: sv.failed,
        }
    }
}

impl<T: WireValue> BlifParser<T> where BlifParser<T>: CanConstructVariant<T> {
    /// Parse the buffered lines into module descriptors.  After a fatal
    /// error the registry's exact contents are not specified; everything
    /// else matches one session run of the buffered lines.
    fn parse_pending(&mut self)
        requires
            old(self)@.parsed == false,
            old(self)@.failed is None,
        ensures
            ({
                let sv = session_spec::<T, BlifParser<T>>(old(self)@.hasher, old(self)@.lines);
                &&& final(self)@.lines =~= Seq::<Seq<char>>::empty()
                &&& final(self)@.parsed == true
                &&& final(self)@.failed == sv.failed
                &&& final(self)@.queued == old(self)@.queued + sv.queued
                &&& (sv.failed is None ==> final(self)@.hasher == sv.hasher)
            }),
    {
        self.parsed = true;
        let mut lines: Vec<String> = Vec::new();
        core::mem::swap(&mut self.lines, &mut lines);
        let ghost linesv = lines.deep_view();
        let id0 = self.hasher.get_wire_id("$false");
        let id1 = self.hasher.get_wire_id("$true");
        if id0 != 0 || id1 != 1 {
            self.error = Some(BlifError::ReservedWireMismatch);
            proof {
                assert(old(self)@.queued + Seq::<CircuitView<T>>::empty() =~= old(self)@.queued);
                assert(self@.queued =~= old(self)@.queued);
            }
            return;
        }
        let mut current: BlifCircuitDesc<T> = seeded_exec();
        let mut fresh: Vec<BlifCircuitDesc<T>> = Vec::new();
        let ghost st0 = ParserView::<T> {
            hasher: self.hasher@,
            current: current@,
            queued: seq![],
            failed: None,
        };
        let mut i: usize = 0;
        proof {
            assert(linesv.skip(0) =~= linesv);
            assert(session_spec::<T, BlifParser<T>>(old(self)@.hasher, old(self)@.lines)
                =~= lines_run::<T, BlifParser<T>>(st0, linesv));
            assert(fresh@.map(|m: int, c: BlifCircuitDesc<T>| c@) =~= st0.queued);
        }
        while i < lines.len()
            invariant
                linesv == lines.deep_view(),
                0 <= i <= linesv.len(),
                self@.parsed == true,
                self@.failed is None,
                self@.lines =~= Seq::<Seq<char>>::empty(),
                self@.queued == old(self)@.queued,
                session_spec::<T, BlifParser<T>>(old(self)@.hasher, old(self)@.lines)
                    == lines_run::<T, BlifParser<T>>(st0, linesv),
                lines_run::<T, BlifParser<T>>(st0, linesv) == lines_run::<T, BlifParser<T>>(
                    (ParserView {
                        hasher: self@.hasher,
                        current: current@,
                        queued: fresh@.map(|m: int, c: BlifCircuitDesc<T>| c@),
                        failed: None,
                    }),
                    linesv.skip(i as int),
                ),
            decreases linesv.len() - i,
        {
            let ghost pre_view = ParserView::<T> {
                hasher: self@.hasher,
                current: current@,
                queued: fresh@.map(|m: int, c: BlifCircuitDesc<T>| c@),
                failed: None,
            };
            proof {
                crate::util::lemma_skip_step(linesv, i as int);
                assert(linesv[i as int] == lines@[i as int]@);
            }
            let tokens = str_split(str_trim(lines[i].as_str()), ' ');
            let ghost linev = linesv[i as int];
            proof {
                lemma_split_nonempty(spec_trim(linev), ' ');
                assert(tokens.deep_view() == split_char(spec_trim(linev), ' '));
                assert(tokens.deep_view()[0] == tokens@[0]@);
            }
            let cmd = &tokens[0];
            let step_result: Result<(), BlifError> = if str_eq(cmd.as_str(), ".model") {
                do_model(&mut current, &tokens)
            } else if str_eq(cmd.as_str(), ".inputs") {
                do_io(&mut self.hasher, &mut current, &tokens, true)
            } else if str_eq(cmd.as_str(), ".outputs") {
                do_io(&mut self.hasher, &mut current, &tokens, false)
            } else if str_eq(cmd.as_str(), ".gate") {
                do_gate::<T, BlifParser<T>>(&mut self.hasher, &mut current, &tokens)
            } else if str_eq(cmd.as_str(), ".subckt") {
                do_subckt(&mut self.hasher, &mut current, &tokens)
            } else if str_eq(cmd.as_str(), ".names") || str_eq(cmd.as_str(), ".conn") {
                do_conn::<T, BlifParser<T>>(&mut self.hasher, &mut current, &tokens)
            } else if str_eq(cmd.as_str(), ".end") {
                let is_empty = current.inputs.len() == 0 && current.outputs.len() == 0
                    && current.gates.len() == 2 && current.subcircuits.len() == 0;
                let mut tmp: BlifCircuitDesc<T> = seeded_exec();
                core::mem::swap(&mut current, &mut tmp);
                if !is_empty {
                    let ghost pre_fresh = fresh@.map(|m: int, c: BlifCircuitDesc<T>| c@);
                    fresh.push(tmp);
                    proof {
                        assert(fresh@.map(|m: int, c: BlifCircuitDesc<T>| c@) =~= pre_fresh.push(
                            pre_view.current,
                        ));
                    }
                }
                Ok(())
            } else {
                Ok(())
            };
            match step_result {
                Ok(u) => {
                    proof {
                        assert(line_step::<T, BlifParser<T>>(pre_view, linev) =~= (ParserView {
                            hasher: self@.hasher,
                            current: current@,
                            queued: fresh@.map(|m: int, c: BlifCircuitDesc<T>| c@),
                            failed: None,
                        }));
                    }
                },
                Err(e) => {
                    proof {
                        assert(line_step::<T, BlifParser<T>>(pre_view, linev) =~= fail_step(
                            pre_view,
                            e,
                        ));
                        lemma_lines_run_failed::<T, BlifParser<T>>(
                            fail_step(pre_view, e),
                            linesv.skip(i as int + 1),
                        );
                    }
                    self.error = Some(e);
                    let ghost pre_circ = self@.queued;
                    self.circuit.append(&mut fresh);
                    proof {
                        assert(self@.queued =~= pre_circ + pre_view.queued);
                    }
                    return;
                },
            }
            i = i + 1;
        }
        proof {
            assert(linesv.skip(linesv.len() as int) =~= Seq::<Seq<char>>::empty());
        }
        let ghost pre_circ = self@.queued;
        let ghost fresh_view = fresh@.map(|m: int, c: BlifCircuitDesc<T>| c@);
        self.circuit.append(&mut fresh);
        proof {
            assert(self@.queued =~= pre_circ + fresh_view);
        }
    }

    /// Parse the previous buffer and store a new one to parse on a
    /// subsequent call to `next`.  This lets one circuit be split across
    /// multiple BLIF files.
    pub fn add_lines(&mut self, new_lines: Vec<String>)
        ensures
            ({
                let fl = flush_state::<T, BlifParser<T>>(old(self)@);
                &&& final(self)@.lines == new_lines.deep_view()
                &&& final(self)@.parsed == false
                &&& final(self)@.failed == fl.failed
                &&& final(self)@.queued == fl.queued
                &&& (fl.failed is None ==> final(self)@.hasher == fl.hasher)
            }),
    {
        if !self.parsed && self.error.is_none() {
            self.parse_pending();
        }
        self.lines = new_lines;
        self.parsed = false;
    }
}

impl<T: WireValue> Parse<T> for BlifParser<T> where BlifParser<T>: CanConstructVariant<T> {
    type Item = BlifCircuitDesc<T>;

    /// A parser over one buffered BLIF file.
    fn new(lines: Vec<String>) -> (r: Self)
        ensures
            r@ == (ParserState::<T> {
                lines: lines.deep_view(),
                hasher: Seq::<Seq<char>>::empty(),
                parsed: false,
                queued: Seq::<CircuitView<T>>::empty(),
                failed: None,
            }),
    {
        let r = BlifParser {
            lines,
            hasher: WireHasher::new(),
            parsed: false,
            circuit: Vec::new(),
            error: None,
        };
        proof {
            assert(r@ =~= (ParserState::<T> {
                lines: r@.lines,
                hasher: Seq::<Seq<char>>::empty(),
                parsed: false,
                queued: Seq::<CircuitView<T>>::empty(),
                failed: None,
            }));
        }
        r
    }

    /// Drain one finished module descriptor, lazily parsing the buffered
    /// lines first.  Yields nothing once the queue is empty or the parser
    /// has failed.
    fn next(&mut self) -> (r: Option<BlifCircuitDesc<T>>)
        ensures
            ({
                let fl = flush_state::<T, BlifParser<T>>(old(self)@);
                &&& final(self)@.parsed == fl.parsed
                &&& final(self)@.failed == fl.failed
                &&& final(self)@.lines == fl.lines
                &&& (fl.failed is None ==> final(self)@.hasher == fl.hasher)
                &&& (if fl.queued.len() > 0 {
                    r matches Some(c) && c@ == fl.queued[0] && final(self)@.queued
                        == fl.queued.drop_first()
                } else {
                    r is None && final(self)@.queued == fl.queued
                })
            }),
    {
        if !self.parsed && self.error.is_none() {
            self.parse_pending();
        }
        if self.circuit.len() > 0 {
            let ghost pre = self@.queued;
            let c = self.circuit.remove(0);
            proof {
                assert(self@.queued =~= pre.drop_first());
            }
            Some(c)
        } else {
            None
        }
    }
}

/// The first fatal error this parser hit, if any.  Once a parse has
/// failed, `next` yields nothing more.
impl<T: WireValue> BlifParser<T> {
    pub fn parse_error(&self) -> (r: Option<BlifError>)
        ensures
            r == self@.failed,
    {
        self.error
    }
}

/// Translates tokens into boolean gates.
impl CanConstructVariant<bool> for BlifParser<bool> {
    open spec fn spec_variant(op: Seq<char>, out: usize, inputs: Seq<usize>, cons: Option<bool>) -> Option<Operation<bool>> {
        if op == "AND"@ || op == "MUL"@ {
            if inputs.len() >= 2 {
                Some(Operation::Mul(out, inputs[0], inputs[1]))
            } else {
                None
            }
        } else if op == "XOR"@ || op == "ADD"@ {
            if inputs.len() >= 2 {
                Some(Operation::Add(out, inputs[0], inputs[1]))
            } else {
                None
            }
        } else if op == "NOT"@ || op == "INV"@ {
            if inputs.len() >= 1 {
                Some(Operation::AddConst(out, inputs[0], true))
            } else {
                None
            }
        } else if op == "BUF"@ {
            if inputs.len() >= 1 {
                Some(Operation::AddConst(out, inputs[0], false))
            } else {
                None
            }
        } else if op == "RAND"@ {
            Some(Operation::Random(out))
        } else if op == "CONST"@ {
            match cons {
                Some(c) => Some(Operation::Const(out, c)),
                None => None,
            }
        } else {
            None
        }
    }

    open spec fn spec_constant_token(s: Seq<char>) -> Option<bool> {
        if s == "$false"@ || s == "false"@ {
            Some(false)
        } else if s == "$true"@ || s == "true"@ {
            Some(true)
        } else {
            None
        }
    }

    fn construct_variant(op: &str, out: usize, inputs: &Vec<usize>, cons: Option<bool>) -> (r: Result<Operation<bool>, BlifError>) {
        if str_eq(op, "AND") || str_eq(op, "MUL") {
            if inputs.len() >= 2 {
                Ok(Operation::Mul(out, inputs[0], inputs[1]))
            } else {
                Err(BlifError::UnsupportedGate)
            }
        } else if str_eq(op, "XOR") || str_eq(op, "ADD") {
            if inputs.len() >= 2 {
                Ok(Operation::Add(out, inputs[0], inputs[1]))
            } else {
                Err(BlifError::UnsupportedGate)
            }
        } else if str_eq(op, "NOT") || str_eq(op, "INV") {
            if inputs.len() >= 1 {
                Ok(Operation::AddConst(out, inputs[0], true))
            } else {
                Err(BlifError::UnsupportedGate)
            }
        } else if str_eq(op, "BUF") {
            if inputs.len() >= 1 {
                Ok(Operation::AddConst(out, inputs[0], false))
            } else {
                Err(BlifError::UnsupportedGate)
            }
        } else if str_eq(op, "RAND") {
            Ok(Operation::Random(out))
        } else if str_eq(op, "CONST") {
            match cons {
                Some(c) => Ok(Operation::Const(out, c)),
                None => Err(BlifError::UnsupportedGate),
            }
        } else {
            Err(BlifError::UnsupportedGate)
        }
    }

    fn constant_from_str(s: &str) -> (r: Result<bool, BlifError>) {
        if str_eq(s, "$false") || str_eq(s, "false") {
            Ok(false)
        } else if str_eq(s, "$true") || str_eq(s, "true") {
            Ok(true)
        } else {
            Err(BlifError::BadConstant)
        }
    }
}

/// Translates tokens into arithmetic gates.
impl CanConstructVariant<u64> for BlifParser<u64> {
    open spec fn spec_variant(op: Seq<char>, out: usize, inputs: Seq<usize>, cons: Option<u64>) -> Option<Operation<u64>> {
        if op == "MUL"@ {
            if inputs.len() >= 2 {
                Some(Operation::Mul(out, inputs[0], inputs[1]))
            } else {
                None
            }
        } else if op == "MULC"@ {
            if inputs.len() >= 1 && cons is Some {
                Some(Operation::MulConst(out, inputs[0], cons->0))
            } else {
                None
            }
        } else if op == "ADD"@ {
            if inputs.len() >= 2 {
                Some(Operation::Add(out, inputs[0], inputs[1]))
            } else {
                None
            }
        } else if op == "ADDC"@ {
            if inputs.len() >= 1 && cons is Some {
                Some(Operation::AddConst(out, inputs[0], cons->0))
            } else {
                None
            }
        } else if op == "SUB"@ {
            if inputs.len() >= 2 {
                Some(Operation::Sub(out, inputs[0], inputs[1]))
            } else {
                None
            }
        } else if op == "SUBC"@ {
            if inputs.len() >= 1 && cons is Some {
                Some(Operation::SubConst(out, inputs[0], cons->0))
            } else {
                None
            }
        } else if op == "BUF"@ {
            if inputs.len() >= 1 {
                Some(Operation::AddConst(out, inputs[0], 0u64))
            } else {
                None
            }
        } else if op == "RAND"@ {
            Some(Operation::Random(out))
        } else if op == "CONST"@ {
            match cons {
                Some(c) => Some(Operation::Const(out, c)),
                None => None,
            }
        } else {
            None
        }
    }

    open spec fn spec_constant_token(s: Seq<char>) -> Option<u64> {
        if s == "$false"@ {
            Some(0u64)
        } else if s == "$true"@ {
            Some(1u64)
        } else if s.len() > 0 && is_digit_seq(s) && dec_val(s) <= u64::MAX {
            Some(dec_val(s) as u64)
        } else {
            None
        }
    }

    fn construct_variant(op: &str, out: usize, inputs: &Vec<usize>, cons: Option<u64>) -> (r: Result<Operation<u64>, BlifError>) {
        if str_eq(op, "MUL") {
            if inputs.len() >= 2 {
                Ok(Operation::Mul(out, inputs[0], inputs[1]))
            } else {
                Err(BlifError::UnsupportedGate)
            }
        } else if str_eq(op, "MULC") {
            match cons {
                Some(c) => {
                    if inputs.len() >= 1 {
                        Ok(Operation::MulConst(out, inputs[0], c))
                    } else {
                        Err(BlifError::UnsupportedGate)
                    }
                },
                None => Err(BlifError::UnsupportedGate),
            }
        } else if str_eq(op, "ADD") {
            if inputs.len() >= 2 {
                Ok(Operation::Add(out, inputs[0], inputs[1]))
            } else {
                Err(BlifError::UnsupportedGate)
            }
        } else if str_eq(op, "ADDC") {
            match cons {
                Some(c) => {
                    if inputs.len() >= 1 {
                        Ok(Operation::AddConst(out, inputs[0], c))
                    } else {
                        Err(BlifError::UnsupportedGate)
                    }
                },
                None => Err(BlifError::UnsupportedGate),
            }
        } else if str_eq(op, "SUB") {
            if inputs.len() >= 2 {
                Ok(Operation::Sub(out, inputs[0], inputs[1]))
            } else {
                Err(BlifError::UnsupportedGate)
            }
        } else if str_eq(op, "SUBC") {
            match cons {
                Some(c) => {
                    if inputs.len() >= 1 {
                        Ok(Operation::SubConst(out, inputs[0], c))
                    } else {
                        Err(BlifError::UnsupportedGate)
                    }
                },
                None => Err(BlifError::UnsupportedGate),
            }
        } else if str_eq(op, "BUF") {
            if inputs.len() >= 1 {
                Ok(Operation::AddConst(out, inputs[0], 0u64))
            } else {
                Err(BlifError::UnsupportedGate)
            }
        } else if str_eq(op, "RAND") {
            Ok(Operation::Random(out))
        } else if str_eq(op, "CONST") {
            match cons {
                Some(c) => Ok(Operation::Const(out, c)),
                None => Err(BlifError::UnsupportedGate),
            }
        } else {
            Err(BlifError::UnsupportedGate)
        }
    }

    fn constant_from_str(s: &str) -> (r: Result<u64, BlifError>) {
        if str_eq(s, "$false") {
            Ok(0u64)
        } else if str_eq(s, "$true") {
            Ok(1u64)
        } else {
            match crate::text::parse_u64(s) {
                Some(v) => Ok(v),
                None => Err(BlifError::BadConstant),
            }
        }
    }
}

} // verus!
