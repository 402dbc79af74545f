//! Parsing and validation of the user's fingerprint options.
use crate::fingerprint::HashAlgorithm;
use vstd::prelude::*;
use vstd::string::{StrSliceExecFns, StringExecFns};

verus! {

/// `c` has the Unicode `White_Space` property: what `char::is_whitespace`
/// tests, and what `str::trim` removes.
pub open spec fn is_whitespace(c: char) -> bool {
    ('\u{9}' <= c <= '\u{d}') || c == ' ' || c == '\u{85}' || c == '\u{a0}' || c == '\u{1680}'
        || ('\u{2000}' <= c <= '\u{200a}') || c == '\u{2028}' || c == '\u{2029}' || c == '\u{202f}'
        || c == '\u{205f}' || c == '\u{3000}'
}

/// `s` without its leading whitespace.
pub open spec fn trim_start(s: Seq<char>) -> Seq<char>
    decreases s.len(),
{
    if s.len() > 0 && is_whitespace(s[0]) {
        trim_start(s.drop_first())
    } else {
        s
    }
}

/// `s` without its trailing whitespace.
pub open spec fn trim_end(s: Seq<char>) -> Seq<char>
    decreases s.len(),
{
    if s.len() > 0 && is_whitespace(s.last()) {
        trim_end(s.drop_last())
    } else {
        s
    }
}

/// `s` without its leading and trailing whitespace.
pub open spec fn trimmed(s: Seq<char>) -> Seq<char> {
    trim_end(trim_start(s))
}

/// What the text of std's integer parse error says for a string that is
/// not a decimal `u32`.
pub uninterp spec fn u32_parse_error(s: Seq<char>) -> Seq<char>;

/// `c` is an ASCII decimal digit.
pub open spec fn is_digit(c: char) -> bool {
    '0' <= c <= '9'
}

/// Value of a string of decimal digits.
pub open spec fn digits_value(s: Seq<char>) -> nat
    decreases s.len(),
{
    if s.len() == 0 {
        0
    } else {
        digits_value(s.drop_last()) * 10 + (s.last() as nat - '0' as nat) as nat
    }
}

/// The digits of a decimal literal: the text after an optional leading `+`.
pub open spec fn literal_digits(s: Seq<char>) -> Seq<char> {
    if s.len() > 0 && s[0] == '+' {
        s.drop_first()
    } else {
        s
    }
}

/// `s` is an optional `+` followed by one or more decimal digits whose
/// value fits in a `u32`: what `u32::from_str` accepts.
pub open spec fn is_u32_literal(s: Seq<char>) -> bool {
    let d = literal_digits(s);
    &&& d.len() > 0
    &&& forall|i: int| 0 <= i < d.len() ==> is_digit(#[trigger] d[i])
    &&& digits_value(d) <= u32::MAX
}

/// The value of a decimal literal.
pub open spec fn literal_value(s: Seq<char>) -> nat {
    digits_value(literal_digits(s))
}

/// The pieces of `s` between commas, in order; a string without commas is
/// one piece.
pub open spec fn split_commas(s: Seq<char>) -> Seq<Seq<char>>
    decreases s.len(),
{
    if s.len() == 0 {
        seq![Seq::empty()]
    } else {
        let r = split_commas(s.drop_last());
        if s.last() == ',' {
            r.push(Seq::empty())
        } else {
            r.update(r.len() - 1, r.last().push(s.last()))
        }
    }
}

/// The outcome of reading one hash dimension from text without surrounding
/// whitespace: a positive `u32`.
pub open spec fn dimension_value(t: Seq<char>) -> Result<u32, Seq<char>> {
    if !is_u32_literal(t) {
        Err(u32_parse_error(t) + ": \""@ + t + "\""@)
    } else if literal_value(t) == 0 {
        Err("Hash size cannot be 0"@)
    } else {
        Ok(literal_value(t) as u32)
    }
}

/// The outcome of reading one hash dimension from a comma-separated piece.
pub open spec fn dimension_result(piece: Seq<char>) -> Result<u32, Seq<char>> {
    dimension_value(trimmed(piece))
}

/// The outcome of reading a hash size: one dimension used for both width
/// and height, or two comma-separated dimensions.
pub open spec fn hash_size_result(arg: Seq<char>) -> Result<(u32, u32), Seq<char>> {
    let parts = split_commas(arg);
    if parts.len() == 1 {
        match dimension_result(parts[0]) {
            Ok(n) => Ok((n, n)),
            Err(e) => Err(e),
        }
    } else if parts.len() == 2 {
        match dimension_result(parts[0]) {
            Err(e) => Err(e),
            Ok(w) => match dimension_result(parts[1]) {
                Err(e) => Err(e),
                Ok(h) => Ok((w, h)),
            },
        }
    } else {
        Err("Too many comma-separated values: \""@ + arg + "\""@)
    }
}

/// The view of a `Result` whose error is a `String`.
pub open spec fn result_view<T>(r: Result<T, String>) -> Result<T, Seq<char>> {
    match r {
        Ok(v) => Ok(v),
        Err(e) => Err(e@),
    }
}

/// Relies on `str::trim`: the text without its leading and trailing
/// Unicode `White_Space` characters.
#[verifier::external_body]
fn trim_str(s: &str) -> (r: &str)
    ensures
        r@ == trimmed(s@),
{
    s.trim()
}

/// Relies on `u32::from_str`, which accepts exactly an optional `+` and
/// decimal digits whose value fits, and on its error's text.
#[verifier::external_body]
fn parse_u32(s: &str) -> (r: Result<u32, String>)
    ensures
        r is Ok <==> is_u32_literal(s@),
        r matches Ok(v) ==> v == literal_value(s@),
        r matches Err(m) ==> m@ == u32_parse_error(s@),
{
    match s.parse::<u32>() {
        Ok(v) => Ok(v),
        Err(e) => Err(e.to_string()),
    }
}

/// Reads one hash dimension, a positive `u32`, from text without
/// surrounding whitespace.
pub fn parse_dimension(t: &str) -> (r: Result<u32, String>)
    ensures
        result_view(r) == dimension_value(t@),
{
    match parse_u32(t) {
        Ok(0) => Err(String::from_str("Hash size cannot be 0")),
        Ok(v) => Ok(v),
        Err(mut e) => {
            e.append(": \"");
            e.append(t);
            e.append("\"");
            Err(e)
        },
    }
}

/// Splits `arg` at its commas.
fn comma_pieces(arg: &str) -> (r: Vec<&str>)
    ensures
        r@.len() == split_commas(arg@).len(),
        forall|k: int| 0 <= k < r@.len() ==> #[trigger] r@[k]@ == split_commas(arg@)[k],
{
    let n = arg.unicode_len();
    let mut pieces: Vec<&str> = Vec::new();
    let mut start: usize = 0;
    let mut i: usize = 0;
    while i < n
        invariant
            n == arg@.len(),
            start <= i <= n,
            split_commas(arg@.take(i as int)).len() == pieces@.len() + 1,
            forall|k: int| 0 <= k < pieces@.len() ==> #[trigger] pieces@[k]@ == split_commas(arg@.take(i as int))[k],
            split_commas(arg@.take(i as int)).last() == arg@.subrange(start as int, i as int),
        decreases n - i,
    {
        let c = arg.get_char(i);
        let ghost prev = split_commas(arg@.take(i as int));
        assert(arg@.take(i + 1).drop_last() =~= arg@.take(i as int));
        assert(arg@.take(i + 1).last() == c);
        if c == ',' {
            let p = arg.substring_char(start, i);
            pieces.push(p);
            start = i + 1;
            assert(arg@.subrange(start as int, (i + 1) as int) =~= Seq::<char>::empty());
        } else {
            assert(arg@.subrange(start as int, (i + 1) as int) =~= arg@.subrange(start as int, i as int).push(c));
        }
        i = i + 1;
    }
    let last = arg.substring_char(start, n);
    pieces.push(last);
    assert(arg@.take(n as int) =~= arg@);
    pieces
}

/// Reads a hash size: either one positive `u32` (used for both width and
/// height) or two comma-separated positive `u32`s, each with surrounding
/// whitespace tolerated.
pub fn parse_hash_size(arg: &str) -> (r: Result<(u32, u32), String>)
    ensures
        result_view(r) == hash_size_result(arg@),
{
    let parts = comma_pieces(arg);
    if parts.len() == 1 {
        match parse_dimension(trim_str(parts[0])) {
            Ok(n) => Ok((n, n)),
            Err(e) => Err(e),
        }
    } else if parts.len() == 2 {
        match parse_dimension(trim_str(parts[0])) {
            Err(e) => Err(e),
            Ok(w) => match parse_dimension(trim_str(parts[1])) {
                Err(e) => Err(e),
                Ok(h) => Ok((w, h)),
            },
        }
    } else {
        let mut m = String::from_str("Too many comma-separated values: \"");
        m.append(arg);
        m.append("\"");
        Err(m)
    }
}

/// The algorithm that a name selects, if it names one.
pub open spec fn algorithm_named(name: Seq<char>) -> Option<HashAlgorithm> {
    if name == "mean"@ {
        Some(HashAlgorithm::Mean)
    } else if name == "h-gradient"@ {
        Some(HashAlgorithm::Gradient)
    } else if name == "v-gradient"@ {
        Some(HashAlgorithm::VertGradient)
    } else if name == "double-gradient"@ {
        Some(HashAlgorithm::DoubleGradient)
    } else if name == "blockhash"@ {
        Some(HashAlgorithm::Blockhash)
    } else {
        None
    }
}

/// Reads the name of a hashing algorithm.
pub fn parse_algo(arg: &str) -> (r: Result<HashAlgorithm, String>)
    ensures
        algorithm_named(arg@) matches Some(a) ==> r == Ok::<HashAlgorithm, String>(a),
        algorithm_named(arg@) is None ==> r is Err && r->Err_0@ == "\""@ + arg@
            + "\" is not a supported hashing algorithm"@,
{
    let name = arg.to_owned();
    if name == "mean".to_owned() {
        Ok(HashAlgorithm::Mean)
    } else if name == "h-gradient".to_owned() {
        Ok(HashAlgorithm::Gradient)
    } else if name == "v-gradient".to_owned() {
        Ok(HashAlgorithm::VertGradient)
    } else if name == "double-gradient".to_owned() {
        Ok(HashAlgorithm::DoubleGradient)
    } else if name == "blockhash".to_owned() {
        Ok(HashAlgorithm::Blockhash)
    } else {
        let mut m = String::from_str("\"");
        m.append(arg);
        m.append("\" is not a supported hashing algorithm");
        Err(m)
    }
}

} // verus!
