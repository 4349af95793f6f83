//! Reading a command line: splitting it into words at ASCII whitespace, and
//! reading a word as a decimal number.
use vstd::prelude::*;
use vstd::string::StringSliceAdditionalSpecFns;

verus! {

/// Space, tab, line feed, form feed and carriage return.
pub open spec fn is_ascii_whitespace(b: u8) -> bool {
    b == 0x20 || b == 0x09 || b == 0x0a || b == 0x0c || b == 0x0d
}

/// The words of `s`: its maximal runs of bytes that are not ASCII
/// whitespace, in order.
pub open spec fn words(s: Seq<u8>) -> Seq<Seq<u8>>
    decreases s.len(),
{
    if s.len() == 0 {
        Seq::empty()
    } else {
        let w = words(s.drop_last());
        let b = s.last();
        if is_ascii_whitespace(b) {
            w
        } else if s.len() >= 2 && !is_ascii_whitespace(s[s.len() - 2]) {
            w.update(w.len() - 1, w.last().push(b))
        } else {
            w.push(seq![b])
        }
    }
}

/// Every word is non-empty and holds no whitespace.
pub open spec fn words_wf(w: Seq<Seq<u8>>) -> bool {
    forall|i: int|
        0 <= i < w.len() ==> (#[trigger] w[i]).len() > 0 && forall|j: int|
            0 <= j < w[i].len() ==> !is_ascii_whitespace(w[i][j])
}

/// The words of a line are non-empty and hold no whitespace, and a line
/// that ends in a byte other than whitespace has that byte ending its last
/// word.
pub proof fn lemma_words_wf(s: Seq<u8>)
    ensures
        words_wf(words(s)),
        s.len() > 0 && !is_ascii_whitespace(s.last()) ==> words(s).len() > 0 && words(
            s,
        ).last().len() > 0 && words(s).last().last() == s.last(),
    decreases s.len(),
{
    if s.len() > 0 {
        lemma_words_wf(s.drop_last());
        let w = words(s.drop_last());
        let b = s.last();
        if is_ascii_whitespace(b) {
        } else if s.len() >= 2 && !is_ascii_whitespace(s[s.len() - 2]) {
            assert(s.drop_last().last() == s[s.len() - 2]);
            let nw = w.update(w.len() - 1, w.last().push(b));
            assert forall|i: int| 0 <= i < nw.len() implies (#[trigger] nw[i]).len() > 0
                && forall|j: int| 0 <= j < nw[i].len() ==> !is_ascii_whitespace(nw[i][j]) by {
                if i != w.len() - 1 {
                    assert(nw[i] == w[i]);
                }
            }
        } else {
            let nw = w.push(seq![b]);
            assert forall|i: int| 0 <= i < nw.len() implies (#[trigger] nw[i]).len() > 0
                && forall|j: int| 0 <= j < nw[i].len() ==> !is_ascii_whitespace(nw[i][j]) by {
                if i != w.len() {
                    assert(nw[i] == w[i]);
                }
            }
        }
    }
}

/// Whether `b` is ASCII whitespace (see `is_ascii_whitespace`).
pub fn ascii_whitespace(b: u8) -> (r: bool)
    ensures
        r == is_ascii_whitespace(b),
{
    b == 0x20 || b == 0x09 || b == 0x0a || b == 0x0c || b == 0x0d
}

/// Splits `s` into its words (see `words`).
pub fn split_ascii_whitespace(s: &[u8]) -> (r: Vec<Vec<u8>>)
    ensures
        r@.map_values(|w: Vec<u8>| w@) == words(s@),
{
    let mut r: Vec<Vec<u8>> = Vec::new();
    let mut i: usize = 0;
    assert(s@.take(0) =~= Seq::<u8>::empty());
    while i < s.len()
        invariant
            i <= s@.len(),
            r@.map_values(|w: Vec<u8>| w@) == words(s@.take(i as int)),
        decreases s@.len() - i,
    {
        let b = s[i];
        let ghost prev = r@.map_values(|w: Vec<u8>| w@);
        proof {
            assert(s@.take(i + 1).drop_last() =~= s@.take(i as int));
            assert(s@.take(i + 1).last() == b);
        }
        if ascii_whitespace(b) {
        } else if i >= 1 && !ascii_whitespace(s[i - 1]) {
            proof {
                assert(s@.take(i + 1)[i - 1] == s@[i - 1]);
                lemma_words_wf(s@.take(i as int));
                assert(s@.take(i as int).last() == s@[i - 1]);
            }
            let last = r.len() - 1;
            let mut w = r.remove(last);
            w.push(b);
            r.push(w);
            assert(r@.map_values(|w: Vec<u8>| w@) =~= prev.update(
                prev.len() - 1,
                prev.last().push(b),
            ));
        } else {
            proof {
                if i >= 1 {
                    assert(s@.take(i + 1)[i - 1] == s@[i - 1]);
                }
            }
            let mut w: Vec<u8> = Vec::new();
            w.push(b);
            r.push(w);
            assert(r@.map_values(|w: Vec<u8>| w@) =~= prev.push(seq![b]));
        }
        i = i + 1;
    }
    assert(s@.take(s@.len() as int) =~= s@);
    r
}

/// Whether `a` holds exactly the UTF-8 bytes of `word`.
pub fn bytes_eq_str(a: &[u8], word: &str) -> (r: bool)
    ensures
        r == (a@ == word.spec_bytes()),
{
    let w = word.as_bytes();
    if a.len() != w.len() {
        return false;
    }
    let mut i: usize = 0;
    while i < a.len()
        invariant
            a@.len() == w@.len(),
            w@ == word.spec_bytes(),
            i <= a@.len(),
            forall|k: int| 0 <= k < i ==> a@[k] == w@[k],
        decreases a@.len() - i,
    {
        if a[i] != w[i] {
            return false;
        }
        i = i + 1;
    }
    assert(a@ =~= w@);
    true
}

/// Why a word is not a number.
#[derive(Clone, Copy, Debug, PartialEq, Eq, Structural)]
pub enum ParseError {
    /// The word is empty.
    Empty,
    /// The word holds something other than decimal digits after an optional
    /// leading `+`.
    InvalidDigit,
    /// The number does not fit in a `usize`.
    PosOverflow,
}

impl ParseError {
    /// The message that describes the error.
    pub fn message(self) -> (m: &'static str)
        ensures
            m@ == match self {
                ParseError::Empty => "cannot parse integer from empty string"@,
                ParseError::InvalidDigit => "invalid digit found in string"@,
                ParseError::PosOverflow => "number too large to fit in target type"@,
            },
    {
        match self {
            ParseError::Empty => "cannot parse integer from empty string",
            ParseError::InvalidDigit => "invalid digit found in string",
            ParseError::PosOverflow => "number too large to fit in target type",
        }
    }
}

pub open spec fn is_digit(b: u8) -> bool {
    0x30 <= b <= 0x39
}

/// Reading digits from the left: the first byte that is not a digit, or
/// the first digit that takes the number past `usize::MAX`, decides the
/// error.
pub open spec fn digits_value(d: Seq<u8>) -> Result<nat, ParseError>
    decreases d.len(),
{
    if d.len() == 0 {
        Ok(0)
    } else {
        match digits_value(d.drop_last()) {
            Err(e) => Err(e),
            Ok(v) => if !is_digit(d.last()) {
                Err(ParseError::InvalidDigit)
            } else if v * 10 + (d.last() - 0x30) > usize::MAX {
                Err(ParseError::PosOverflow)
            } else {
                Ok((v * 10 + (d.last() - 0x30)) as nat)
            },
        }
    }
}

/// A decimal number: an optional `+` and then digits.
pub open spec fn parse_usize_spec(s: Seq<u8>) -> Result<nat, ParseError> {
    if s.len() == 0 {
        Err(ParseError::Empty)
    } else if s.len() == 1 && (s[0] == 0x2b || s[0] == 0x2d) {
        Err(ParseError::InvalidDigit)
    } else if s[0] == 0x2b {
        digits_value(s.drop_first())
    } else {
        digits_value(s)
    }
}

/// Reads `s` as a decimal number (see `parse_usize_spec`).
pub fn parse_usize(s: &[u8]) -> (r: Result<usize, ParseError>)
    ensures
        match (r, parse_usize_spec(s@)) {
            (Ok(v), Ok(w)) => v == w,
            (Err(e), Err(f)) => e == f,
            _ => false,
        },
{
    if s.len() == 0 {
        return Err(ParseError::Empty);
    }
    if s.len() == 1 && (s[0] == 0x2b || s[0] == 0x2d) {
        return Err(ParseError::InvalidDigit);
    }
    let start: usize = if s[0] == 0x2b { 1 } else { 0 };
    let ghost d = s@.subrange(start as int, s@.len() as int);
    assert(start == 1 ==> d =~= s@.drop_first());
    assert(start == 0 ==> d =~= s@);
    let mut v: usize = 0;
    let mut i: usize = start;
    assert(d.take(0) =~= Seq::<u8>::empty());
    assert(parse_usize_spec(s@) == digits_value(d));
    while i < s.len()
        invariant
            parse_usize_spec(s@) == digits_value(d),
            start <= i <= s@.len(),
            d == s@.subrange(start as int, s@.len() as int),
            digits_value(d.take(i - start)) == Ok::<nat, ParseError>(v as nat),
        decreases s@.len() - i,
    {
        let b = s[i];
        proof {
            assert(d.take(i - start + 1).drop_last() =~= d.take(i - start));
            assert(d.take(i - start + 1).last() == b);
        }
        if b < 0x30 || b > 0x39 {
            proof {
                lemma_digits_error_extends(d, (i - start + 1) as int);
            }
            return Err(ParseError::InvalidDigit);
        }
        let x = (b - 0x30) as usize;
        if v > (usize::MAX - x) / 10 {
            proof {
                assert(v * 10 + x > usize::MAX) by (nonlinear_arith)
                    requires
                        v > (usize::MAX - x) / 10,
                        x <= 9,
                ;
                lemma_digits_error_extends(d, (i - start + 1) as int);
            }
            return Err(ParseError::PosOverflow);
        }
        proof {
            assert(v * 10 + x <= usize::MAX) by (nonlinear_arith)
                requires
                    v <= (usize::MAX - x) / 10,
                    x <= 9,
            ;
        }
        v = v * 10 + x;
        i = i + 1;
    }
    assert(d.take(i - start) =~= d);
    Ok(v)
}

/// Once reading a prefix of the digits fails, reading all of them fails the
/// same way.
proof fn lemma_digits_error_extends(d: Seq<u8>, k: int)
    requires
        0 <= k <= d.len(),
        digits_value(d.take(k)) is Err,
    ensures
        digits_value(d) == digits_value(d.take(k)),
    decreases d.len() - k,
{
    if k < d.len() {
        assert(d.take(k + 1).drop_last() =~= d.take(k));
        lemma_digits_error_extends(d, k + 1);
    } else {
        assert(d.take(k) =~= d);
    }
}

} // verus!
