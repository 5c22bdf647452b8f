use vstd::prelude::*;
use vstd::string::*;

use super::parse::File;

verus! {

/// The character that writes the digit `d`, for `0 <= d <= 9`.
pub open spec fn digit_char(d: int) -> char {
    if d == 0 {
        '0'
    } else if d == 1 {
        '1'
    } else if d == 2 {
        '2'
    } else if d == 3 {
        '3'
    } else if d == 4 {
        '4'
    } else if d == 5 {
        '5'
    } else if d == 6 {
        '6'
    } else if d == 7 {
        '7'
    } else if d == 8 {
        '8'
    } else {
        '9'
    }
}

/// Decimal notation of a natural number, most significant digit first,
/// without leading zeros.
pub open spec fn decimal(n: nat) -> Seq<char>
    decreases n,
{
    if n < 10 {
        seq![digit_char(n as int)]
    } else {
        decimal(n / 10).push(digit_char((n % 10) as int))
    }
}

/// Decimal notation of an integer: a minus sign before the digits of a
/// negative number.
pub open spec fn int_text(i: int) -> Seq<char> {
    if i < 0 {
        seq!['-'] + decimal((-i) as nat)
    } else {
        decimal(i as nat)
    }
}

/// Decimal notation padded with one leading zero below ten.
pub open spec fn two_digits(n: nat) -> Seq<char> {
    if n < 10 {
        seq!['0'] + decimal(n)
    } else {
        decimal(n)
    }
}

/// `hours:minutes:seconds` for a duration given in seconds; minutes and
/// seconds take two digits each.
pub open spec fn duration_text(secs: nat) -> Seq<char> {
    decimal(secs / 3600) + seq![':'] + two_digits((secs / 60) % 60) + seq![':'] + two_digits(
        secs % 60,
    )
}

fn digit_str(d: u64) -> (r: &'static str)
    requires
        d < 10,
    ensures
        r@ == seq![digit_char(d as int)],
{
    proof {
        reveal_strlit("0");
        reveal_strlit("1");
        reveal_strlit("2");
        reveal_strlit("3");
        reveal_strlit("4");
        reveal_strlit("5");
        reveal_strlit("6");
        reveal_strlit("7");
        reveal_strlit("8");
        reveal_strlit("9");
    }
    let r = if d == 0 {
        "0"
    } else if d == 1 {
        "1"
    } else if d == 2 {
        "2"
    } else if d == 3 {
        "3"
    } else if d == 4 {
        "4"
    } else if d == 5 {
        "5"
    } else if d == 6 {
        "6"
    } else if d == 7 {
        "7"
    } else if d == 8 {
        "8"
    } else {
        "9"
    };
    r
}

/// Appends the decimal notation of `n` to `out`.
pub fn push_decimal(out: &mut String, n: u64)
    ensures
        final(out)@ == old(out)@ + decimal(n as nat),
    decreases n,
{
    if n >= 10 {
        push_decimal(out, n / 10);
    }
    out.append(digit_str(n % 10));
}

/// Appends the decimal notation of `i` to `out`.
pub fn push_int(out: &mut String, i: i64)
    ensures
        final(out)@ == old(out)@ + int_text(i as int),
{
    if i < 0 {
        proof {
            reveal_strlit("-");
        }
        out.append("-");
        let magnitude: u64 = if i == i64::MIN {
            9223372036854775808u64
        } else {
            (-i) as u64
        };
        push_decimal(out, magnitude);
    } else {
        push_decimal(out, i as u64);
    }
}

/// Appends `n` in decimal notation, with a leading zero below ten.
pub fn push_two_digits(out: &mut String, n: u64)
    ensures
        final(out)@ == old(out)@ + two_digits(n as nat),
{
    if n < 10 {
        proof {
            reveal_strlit("0");
        }
        out.append("0");
    }
    push_decimal(out, n);
}

/// Human-readable length of a span of time.
pub trait DurationDate {
    spec fn seconds(&self) -> nat;

    fn durationdate(&self) -> (r: String)
        ensures
            r@ == duration_text(self.seconds()),
    ;
}

/// A span of time counted in whole seconds.
impl DurationDate for u64 {
    open spec fn seconds(&self) -> nat {
        *self as nat
    }

    fn durationdate(&self) -> (r: String) {
        let secs: u64 = *self % 60;
        let minutes: u64 = (*self / 60) % 60;
        let hours: u64 = (*self / 60) / 60;
        let mut r = String::new();
        push_decimal(&mut r, hours);
        proof {
            reveal_strlit(":");
        }
        r.append(":");
        push_two_digits(&mut r, minutes);
        r.append(":");
        push_two_digits(&mut r, secs);
        assert((*self as nat / 60) / 60 == *self as nat / 3600) by (nonlinear_arith);
        r
    }
}

/// Name of replica number `nb_iter` of the program `name`.
pub open spec fn n_name_spec(name: Seq<char>, nb_iter: int) -> Seq<char> {
    name + seq!['_'] + int_text(nb_iter)
}

pub fn n_name(name: String, nb_iter: i64) -> (r: String)
    ensures
        r@ == n_name_spec(name@, nb_iter as int),
{
    let mut n_name = name;
    proof {
        reveal_strlit("_");
    }
    n_name.append("_");
    push_int(&mut n_name, nb_iter);
    n_name
}

pub fn parse_to_string(opt: Option<&str>) -> (r: Option<String>)
    ensures
        r.deep_view() == opt.deep_view(),
{
    match opt {
        Some(opt) => Some(String::from_str(opt)),
        None => None,
    }
}

/// Whether the configuration names no file for the standard output.
pub fn test_stdout(parse_file: &File) -> (r: bool)
    ensures
        r == parse_file.bool_stdout,
{
    parse_file.bool_stdout
}

/// Whether the configuration names no file for the standard error.
pub fn test_stderr(parse_file: &File) -> (r: bool)
    ensures
        r == parse_file.bool_stderr,
{
    parse_file.bool_stderr
}

/// Whether the configuration leaves one of the two streams without a file.
pub fn test_nofile(parse_file: &File) -> (r: bool)
    ensures
        r == (parse_file.bool_stdout || parse_file.bool_stderr),
{
    test_stdout(parse_file) || test_stderr(parse_file)
}

/// The first place in `s` at which `pred` holds, if there is one.
pub open spec fn first_index<A>(s: Seq<A>, pred: spec_fn(A) -> bool) -> Option<int>
    decreases s.len(),
{
    if s.len() == 0 {
        None
    } else {
        match first_index(s.drop_last(), pred) {
            Some(i) => Some(i),
            None => if pred(s.last()) {
                Some(s.len() - 1)
            } else {
                None
            },
        }
    }
}

/// `first_index` gives a place at which `pred` holds and before which it
/// does not; it gives none only if `pred` holds nowhere.
pub proof fn lemma_first_index<A>(s: Seq<A>, pred: spec_fn(A) -> bool)
    ensures
        match first_index(s, pred) {
            Some(i) => 0 <= i < s.len() && pred(s[i]) && forall|j: int|
                0 <= j < i ==> !pred(#[trigger] s[j]),
            None => forall|j: int| 0 <= j < s.len() ==> !pred(#[trigger] s[j]),
        },
    decreases s.len(),
{
    if s.len() > 0 {
        lemma_first_index(s.drop_last(), pred);
        match first_index(s.drop_last(), pred) {
            Some(i) => {
                assert forall|j: int| 0 <= j < i implies !pred(#[trigger] s[j]) by {
                    assert(s.drop_last()[j] == s[j]);
                }
            },
            None => {
                assert forall|j: int| 0 <= j < s.len() - 1 implies !pred(#[trigger] s[j]) by {
                    assert(s.drop_last()[j] == s[j]);
                }
            },
        }
    }
}

/// The place at which `pred` holds and before which it does not is the one
/// that `first_index` gives.
pub proof fn lemma_first_index_is<A>(s: Seq<A>, pred: spec_fn(A) -> bool, k: int)
    requires
        0 <= k <= s.len(),
        forall|j: int| 0 <= j < k ==> !pred(#[trigger] s[j]),
        k < s.len() ==> pred(s[k]),
    ensures
        first_index(s, pred) == (if k < s.len() {
            Some(k)
        } else {
            None
        }),
{
    lemma_first_index(s, pred);
}

/// Where `sep` first stands in `s`; the length of `s` if it stands nowhere.
pub open spec fn first_at(s: Seq<char>, sep: char) -> int
    decreases s.len(),
{
    if s.len() == 0 {
        0
    } else if s[0] == sep {
        0
    } else {
        1 + first_at(s.skip(1), sep)
    }
}

/// The pieces of `s` between the occurrences of `sep`: one piece more than
/// there are occurrences, so a text without `sep` is its own single piece.
pub open spec fn split_spec(s: Seq<char>, sep: char) -> Seq<Seq<char>>
    decreases s.len(),
{
    let i = first_at(s, sep);
    if 0 <= i < s.len() {
        seq![s.take(i)] + split_spec(s.skip(i + 1), sep)
    } else {
        seq![s]
    }
}

/// `first_at` is the one position before which `sep` does not stand and at
/// which it does, or the text ends.
pub proof fn lemma_first_at(s: Seq<char>, sep: char, k: int)
    requires
        0 <= k <= s.len(),
        forall|j: int| 0 <= j < k ==> s[j] != sep,
        k < s.len() ==> s[k] == sep,
    ensures
        first_at(s, sep) == k,
    decreases s.len(),
{
    if s.len() > 0 && k > 0 {
        let rest = s.skip(1);
        lemma_first_at(rest, sep, k - 1);
    }
}

/// The pieces of `text` between the occurrences of `sep`.
pub fn split(text: &str, sep: char) -> (r: Vec<String>)
    ensures
        r.deep_view() == split_spec(text@, sep),
{
    let n = text.unicode_len();
    let mut pieces: Vec<String> = Vec::new();
    let mut start: usize = 0;
    let mut i: usize = 0;
    assert(text@.skip(0) =~= text@);
    while i < n
        invariant
            start <= i <= n,
            n == text@.len(),
            forall|j: int| start <= j < i ==> text@[j] != sep,
            pieces.deep_view() + split_spec(text@.skip(start as int), sep) == split_spec(
                text@,
                sep,
            ),
        decreases n - i,
    {
        if text.get_char(i) == sep {
            let piece = text.substring_char(start, i);
            let ghost rest = text@.skip(start as int);
            proof {
                lemma_first_at(rest, sep, i - start);
                assert(rest.take(i - start) =~= text@.subrange(start as int, i as int));
                assert(rest.skip(i - start + 1) =~= text@.skip(i + 1));
            }
            pieces.push(String::from_str(piece));
            start = i + 1;
        }
        i = i + 1;
    }
    let piece = text.substring_char(start, n);
    let ghost rest = text@.skip(start as int);
    proof {
        lemma_first_at(rest, sep, n - start);
    }
    pieces.push(String::from_str(piece));
    pieces
}

} // verus!
