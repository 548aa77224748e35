//! Decimal integers and `HH:MM:SS[.fraction]` timestamps as the media tools print them.
use vstd::prelude::*;
use crate::text::{split_char, split_chars, views};

verus! {

/// Why a decimal integer could not be read.
#[derive(Clone, Copy, Debug, PartialEq, Eq, Structural)]
pub enum IntErrorKind {
    Empty,
    InvalidDigit,
    PosOverflow,
}

pub open spec fn is_digit(c: char) -> bool {
    '0' <= c && c <= '9'
}

pub open spec fn all_digits(s: Seq<char>) -> bool {
    forall|i: int| 0 <= i < s.len() ==> is_digit(#[trigger] s[i])
}

pub open spec fn digit_val(c: char) -> nat {
    (c as nat - '0' as nat) as nat
}

/// The value of a string of decimal digits.
pub open spec fn digits_val(s: Seq<char>) -> nat
    decreases s.len(),
{
    if s.len() == 0 {
        0
    } else {
        digits_val(s.drop_last()) * 10 + digit_val(s.last())
    }
}

/// What `u64::from_str` gives: an optional `+`, then one or more decimal
/// digits whose value fits in 64 bits.
pub open spec fn parse_u64_spec(s: Seq<char>) -> Result<u64, IntErrorKind> {
    let body = if s.len() > 0 && s[0] == '+' {
        s.drop_first()
    } else {
        s
    };
    if s.len() == 0 {
        Err(IntErrorKind::Empty)
    } else if body.len() == 0 || !all_digits(body) {
        Err(IntErrorKind::InvalidDigit)
    } else if digits_val(body) > u64::MAX {
        Err(IntErrorKind::PosOverflow)
    } else {
        Ok(digits_val(body) as u64)
    }
}

proof fn lemma_digits_val_prefix(s: Seq<char>, i: int)
    requires
        0 <= i <= s.len(),
        all_digits(s),
    ensures
        digits_val(s.subrange(0, i)) <= digits_val(s),
    decreases s.len(),
{
    if i < s.len() {
        assert(all_digits(s.drop_last()));
        assert(s.drop_last().subrange(0, i) =~= s.subrange(0, i));
        lemma_digits_val_prefix(s.drop_last(), i);
    } else {
        assert(s.subrange(0, i) =~= s);
    }
}

/// Reads a decimal `u64` as `u64::from_str` does.
pub fn parse_u64(s: &Vec<char>) -> (r: Result<u64, IntErrorKind>)
    ensures
        r == parse_u64_spec(s@),
{
    if s.len() == 0 {
        return Err(IntErrorKind::Empty);
    }
    let start: usize = if s[0] == '+' { 1 } else { 0 };
    let ghost body = s@.subrange(start as int, s.len() as int);
    assert(body =~= (if s@.len() > 0 && s@[0] == '+' { s@.drop_first() } else { s@ }));
    if start == s.len() {
        return Err(IntErrorKind::InvalidDigit);
    }
    let mut k: usize = start;
    while k < s.len()
        invariant
            start <= k <= s.len(),
            body == s@.subrange(start as int, s.len() as int),
            body == (if s@.len() > 0 && s@[0] == '+' { s@.drop_first() } else { s@ }),
            s@.len() > 0,
            forall|j: int| 0 <= j < k - start ==> is_digit(#[trigger] body[j]),
        decreases s.len() - k,
    {
        assert(body[k - start] == s@[k as int]);
        if !('0' <= s[k] && s[k] <= '9') {
            assert(!is_digit(body[k - start]));
            assert(!all_digits(body));
            assert(body.len() > 0);
            return Err(IntErrorKind::InvalidDigit);
        }
        k += 1;
    }
    assert(all_digits(body));
    let mut acc: u64 = 0;
    let mut i: usize = start;
    while i < s.len()
        invariant
            start <= i <= s.len(),
            body == s@.subrange(start as int, s.len() as int),
            body == (if s@.len() > 0 && s@[0] == '+' { s@.drop_first() } else { s@ }),
            s@.len() > 0,
            all_digits(body),
            acc as nat == digits_val(body.subrange(0, i - start)),
        decreases s.len() - i,
    {
        assert(body[i - start] == s@[i as int]);
        assert(is_digit(body[i - start]));
        let d = (s[i] as u32 - '0' as u32) as u64;
        let ghost pre = body.subrange(0, i - start + 1);
        assert(pre.drop_last() =~= body.subrange(0, i - start));
        assert(pre.last() == s@[i as int]);
        assert(digit_val(pre.last()) == d);
        assert(digits_val(pre) == acc * 10 + d);
        if acc > (u64::MAX - d) / 10 {
            proof {
                assert(digits_val(pre) > u64::MAX) by (nonlinear_arith)
                    requires
                        acc > (u64::MAX - d) / 10,
                        digits_val(pre) == acc * 10 + d,
                        d <= 9,
                ;
                lemma_digits_val_prefix(body, i - start + 1);
                assert(digits_val(body) > u64::MAX);
                assert(body.len() > 0);
            }
            return Err(IntErrorKind::PosOverflow);
        }
        assert(acc * 10 + d <= u64::MAX) by (nonlinear_arith)
            requires
                acc <= (u64::MAX - d) / 10,
                d <= 9,
        ;
        acc = acc * 10 + d;
        i += 1;
    }
    assert(body.subrange(0, s.len() - start) =~= body);
    Ok(acc)
}

/// The text of each `IntErrorKind`, as std words it.
pub open spec fn int_error_text(k: IntErrorKind) -> Seq<char> {
    match k {
        IntErrorKind::Empty => "cannot parse integer from empty string"@,
        IntErrorKind::InvalidDigit => "invalid digit found in string"@,
        IntErrorKind::PosOverflow => "number too large to fit in target type"@,
    }
}

impl IntErrorKind {
    pub fn message(&self) -> (r: String)
        ensures
            r@ == int_error_text(*self),
    {
        match self {
            IntErrorKind::Empty => String::from_str("cannot parse integer from empty string"),
            IntErrorKind::InvalidDigit => String::from_str("invalid digit found in string"),
            IntErrorKind::PosOverflow => String::from_str("number too large to fit in target type"),
        }
    }
}

/// Errors of reading the media tools' output.
#[derive(Debug)]
pub enum MpvStdoutError {
    /// The bytes were not UTF-8; holds the decoder's message.
    Utf8Error(String),
    MissingVideoTitle(String),
    MissingTimestamp(String),
    /// A timestamp field that is no integer, and the reason.
    ParseInt(String, String),
    InvalidTimestamp(String),
}

/// The error as plain values.
pub enum StdoutErrorView {
    Utf8Error,
    MissingVideoTitle(Seq<char>),
    MissingTimestamp(Seq<char>),
    ParseInt(Seq<char>, Seq<char>),
    InvalidTimestamp(Seq<char>),
}

impl View for MpvStdoutError {
    type V = StdoutErrorView;

    open spec fn view(&self) -> StdoutErrorView {
        match self {
            MpvStdoutError::Utf8Error(_) => StdoutErrorView::Utf8Error,
            MpvStdoutError::MissingVideoTitle(s) => StdoutErrorView::MissingVideoTitle(s@),
            MpvStdoutError::MissingTimestamp(s) => StdoutErrorView::MissingTimestamp(s@),
            MpvStdoutError::ParseInt(a, b) => StdoutErrorView::ParseInt(a@, b@),
            MpvStdoutError::InvalidTimestamp(s) => StdoutErrorView::InvalidTimestamp(s@),
        }
    }
}

/// The `:`-separated fields of a timestamp, its fraction after the first `.` dropped.
pub open spec fn timestamp_fields(ts: Seq<char>) -> Seq<Seq<char>> {
    split_char(split_char(ts, '.')[0], ':')
}

/// One field read as an integer, or the `ParseInt` error for it.
pub open spec fn field_val(f: Seq<char>) -> Result<u64, StdoutErrorView> {
    match parse_u64_spec(f) {
        Ok(v) => Ok(v),
        Err(k) => Err(StdoutErrorView::ParseInt(f, int_error_text(k))),
    }
}

/// The number of seconds that `HH:MM:SS[.fraction]` denotes, or why it denotes none.
pub open spec fn seconds_of(ts: Seq<char>) -> Result<u64, StdoutErrorView> {
    let f = timestamp_fields(ts);
    if f.len() != 3 {
        Err(StdoutErrorView::InvalidTimestamp(ts))
    } else {
        match field_val(f[0]) {
            Err(e) => Err(e),
            Ok(h) => match field_val(f[1]) {
                Err(e) => Err(e),
                Ok(m) => match field_val(f[2]) {
                    Err(e) => Err(e),
                    Ok(s) => if h * 3600 + m * 60 + s > u64::MAX {
                        Err(StdoutErrorView::InvalidTimestamp(ts))
                    } else {
                        Ok((h * 3600 + m * 60 + s) as u64)
                    },
                },
            },
        }
    }
}

fn field_value(f: &Vec<char>) -> (r: Result<u64, MpvStdoutError>)
    ensures
        match (r, field_val(f@)) {
            (Ok(a), Ok(b)) => a == b,
            (Err(a), Err(b)) => a@ == b,
            _ => false,
        },
{
    match parse_u64(f) {
        Ok(v) => Ok(v),
        Err(k) => Err(MpvStdoutError::ParseInt(crate::text::string_of(f.as_slice()), k.message())),
    }
}

/// Reads `HH:MM:SS[.fraction]` into whole seconds.
pub fn timestamp_seconds(ts: &String) -> (r: Result<u64, MpvStdoutError>)
    ensures
        match (r, seconds_of(ts@)) {
            (Ok(a), Ok(b)) => a == b,
            (Err(a), Err(b)) => a@ == b,
            _ => false,
        },
{
    let chars = crate::text::chars_of(ts.as_str());
    let pieces = split_chars(&chars, '.');
    proof {
        crate::text::lemma_split_char_len(chars@, '.');
        assert(views(pieces@)[0] == pieces@[0]@);
    }
    let fields = split_chars(&pieces[0], ':');
    proof {
        assert(views(fields@).len() == fields@.len());
    }
    if fields.len() != 3 {
        return Err(MpvStdoutError::InvalidTimestamp(ts.clone()));
    }
    assert(views(fields@)[0] == fields@[0]@);
    assert(views(fields@)[1] == fields@[1]@);
    assert(views(fields@)[2] == fields@[2]@);
    let h = field_value(&fields[0])?;
    let m = field_value(&fields[1])?;
    let s = field_value(&fields[2])?;
    if h > 5124095576030431 || m > 307445734561825860 {
        assert(h * 3600 + m * 60 + s > u64::MAX) by (nonlinear_arith)
            requires
                h > 5124095576030431 || m > 307445734561825860,
        ;
        return Err(MpvStdoutError::InvalidTimestamp(ts.clone()));
    }
    let hs: u64 = h * 3600;
    let ms: u64 = m * 60;
    if hs > u64::MAX - ms || hs + ms > u64::MAX - s {
        return Err(MpvStdoutError::InvalidTimestamp(ts.clone()));
    }
    Ok(hs + ms + s)
}

} // verus!
