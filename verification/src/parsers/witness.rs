//! Parsing of witness bit strings.

use crate::parsers::Parse;
use crate::WireValue;
use vstd::prelude::*;
use vstd::string::StrSliceExecFns;

verus! {

/// Why a witness line cannot be read.
#[derive(Clone, Copy, Debug, PartialEq, Eq, Structural)]
pub enum WitnessError {
    /// The line holds a character other than `0` or `1`.
    BadBit,
    /// The line does not hold exactly the expected number of bits.
    WrongLength,
}

/// The bit a witness character stands for, if any.
pub open spec fn bit_of(c: char) -> Option<bool> {
    if c == '0' {
        Some(false)
    } else if c == '1' {
        Some(true)
    } else {
        None
    }
}

/// The bits of a witness line: one per character, or nothing when any
/// character is not a bit.
pub open spec fn spec_parse_bits(s: Seq<char>) -> Option<Seq<bool>>
    decreases s.len(),
{
    if s.len() == 0 {
        Some(seq![])
    } else {
        match bit_of(s[0]) {
            None => None,
            Some(b) => match spec_parse_bits(s.drop_first()) {
                None => None,
                Some(rest) => Some(seq![b] + rest),
            },
        }
    }
}

/// What one witness line yields: its bits when it is exactly `width` bits
/// of `0` and `1`, and the exact failure otherwise.
pub open spec fn spec_witness_line(s: Seq<char>, width: int) -> Result<Seq<bool>, WitnessError> {
    match spec_parse_bits(s) {
        None => Err(WitnessError::BadBit),
        Some(bits) => if bits.len() == width {
            Ok(bits)
        } else {
            Err(WitnessError::WrongLength)
        },
    }
}

/// Parses lines of `0`/`1` characters into fixed-width witness steps, one
/// line per call to `next`.
pub struct WitnessParser<const L: usize> {
    lines: Vec<String>,
    pos: usize,
}

impl<const L: usize> WitnessParser<L> {
    /// The lines not yet consumed.
    pub closed spec fn remaining(self) -> Seq<Seq<char>> {
        if self.pos <= self.lines@.len() {
            self.lines.deep_view().skip(self.pos as int)
        } else {
            Seq::<Seq<char>>::empty()
        }
    }

    /// One witness line parsed into bits.
    fn parse_line(s: &str) -> (r: Result<Vec<bool>, WitnessError>)
        ensures
            match spec_witness_line(s@, L as int) {
                Ok(bits) => r matches Ok(v) && v@ == bits,
                Err(e) => r == Err::<Vec<bool>, WitnessError>(e),
            },
    {
        let len = s.unicode_len();
        let mut bits: Vec<bool> = Vec::new();
        let mut i: usize = 0;
        proof {
            assert(s@.skip(0) =~= s@);
        }
        while i < len
            invariant
                len == s@.len(),
                0 <= i <= len,
                spec_parse_bits(s@) == (match spec_parse_bits(s@.skip(i as int)) {
                    Some(rest) => Some(bits@ + rest),
                    None => None::<Seq<bool>>,
                }),
                bits@.len() == i,
            decreases len - i,
        {
            proof {
                crate::util::lemma_skip_step(s@, i as int);
            }
            let c = s.get_char(i);
            let b = if c == '0' {
                false
            } else if c == '1' {
                true
            } else {
                return Err(WitnessError::BadBit);
            };
            let ghost pre = bits@;
            bits.push(b);
            proof {
                match spec_parse_bits(s@.skip(i + 1)) {
                    Some(rest) => {
                        assert(pre + (seq![b] + rest) =~= bits@ + rest);
                    },
                    None => {},
                }
            }
            i = i + 1;
        }
        proof {
            assert(s@.skip(len as int) =~= Seq::<char>::empty());
            assert(bits@ + Seq::<bool>::empty() =~= bits@);
        }
        if bits.len() != L {
            return Err(WitnessError::WrongLength);
        }
        Ok(bits)
    }
}

impl<const L: usize> Parse<bool> for WitnessParser<L> {
    type Item = Result<Vec<bool>, WitnessError>;

    /// A parser over the given witness lines.
    fn new(lines: Vec<String>) -> (r: Self)
        ensures
            r.remaining() == lines.deep_view(),
    {
        let r = WitnessParser { lines, pos: 0 };
        proof {
            assert(r.remaining() =~= r.lines.deep_view());
        }
        r
    }

    /// The next witness step: nothing once the lines are exhausted, the
    /// step's bits when the next line is well-formed, and the exact failure
    /// otherwise.
    fn next(&mut self) -> (r: Option<Result<Vec<bool>, WitnessError>>)
        ensures
            old(self).remaining().len() == 0 ==> r is None && final(self).remaining()
                == old(self).remaining(),
            old(self).remaining().len() > 0 ==> {
                &&& final(self).remaining() == old(self).remaining().drop_first()
                &&& (match spec_witness_line(old(self).remaining()[0], L as int) {
                    Ok(bits) => r matches Some(q) && q matches Ok(v) && v@ == bits,
                    Err(e) => r == Some(Err::<Vec<bool>, WitnessError>(e)),
                })
            },
    {
        if self.pos >= self.lines.len() {
            return None;
        }
        let line = &self.lines[self.pos];
        let out = Self::parse_line(line.as_str());
        self.pos = self.pos + 1;
        proof {
            crate::util::lemma_skip_step(self.lines.deep_view(), self.pos - 1);
            assert(self.lines.deep_view()[self.pos - 1] == line@);
            assert(final(self).remaining() =~= old(self).remaining().drop_first());
        }
        Some(out)
    }
}

} // verus!
