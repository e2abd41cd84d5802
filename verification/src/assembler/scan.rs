//! Character-level recognisers of the assembly language: runs of characters
//! of one class, single marker characters, and decimal numbers.

use nom::types::CompleteStr;
use vstd::prelude::*;
use vstd::string::*;

verus! {

/// What `nom::AsChar::is_alpha` answers for a `char`, which is what
/// `char::is_alphabetic` answers: whether the character has the Unicode
/// property Alphabetic.
pub uninterp spec fn is_alphabetic(c: char) -> bool;

/// Whether a character is one of the ten decimal digits.
pub open spec fn is_digit(c: char) -> bool {
    '0' <= c <= '9'
}

/// Whether a character is a space, a tab, a carriage return or a line feed.
pub open spec fn is_whitespace(c: char) -> bool {
    c == ' ' || c == '\t' || c == '\r' || c == '\n'
}

/// The classes of characters that the language is made of.
#[derive(Debug, PartialEq, Eq, Clone, Copy, Structural)]
pub enum CharClass {
    Alphabetic,
    Digit,
    Alphanumeric,
    Whitespace,
}

impl CharClass {
    /// Whether a character belongs to this class.
    pub open spec fn admits(self, c: char) -> bool {
        match self {
            CharClass::Alphabetic => is_alphabetic(c),
            CharClass::Digit => is_digit(c),
            CharClass::Alphanumeric => is_alphabetic(c) || is_digit(c),
            CharClass::Whitespace => is_whitespace(c),
        }
    }
}

/// The length of the longest prefix of a text whose characters all belong
/// to a class.
pub open spec fn run_len(s: Seq<char>, class: CharClass) -> nat
    decreases s.len(),
{
    if s.len() > 0 && class.admits(s[0]) {
        1 + run_len(s.skip(1), class)
    } else {
        0
    }
}

/// A text without the whitespace it starts with.
pub open spec fn skip_ws(s: Seq<char>) -> Seq<char> {
    s.skip(run_len(s, CharClass::Whitespace) as int)
}

/// The number that a text of decimal digits denotes.
pub open spec fn decimal_value(digits: Seq<char>) -> nat
    decreases digits.len(),
{
    if digits.len() == 0 {
        0
    } else {
        decimal_value(digits.drop_last()) * 10 + (digits.last() as nat - '0' as nat) as nat
    }
}

/// A marker character followed by a run of one class: the run and what
/// follows it, if the text starts so and the run is not empty.
pub open spec fn marked_run(s: Seq<char>, marker: char, class: CharClass) -> Option<
    (Seq<char>, Seq<char>),
> {
    if s.len() > 0 && s[0] == marker && run_len(s.skip(1), class) > 0 {
        let n = run_len(s.skip(1), class) as int;
        Some((s.skip(1).take(n), s.skip(1).skip(n)))
    } else {
        None
    }
}

/// A marker character followed by a decimal number of at most `limit`: the
/// number and what follows it, if the text starts so.
pub open spec fn marked_number(s: Seq<char>, marker: char, limit: nat) -> Option<
    (nat, Seq<char>),
> {
    match marked_run(s, marker, CharClass::Digit) {
        Some((digits, rest)) => if decimal_value(digits) <= limit {
            Some((decimal_value(digits), rest))
        } else {
            None
        },
        None => None,
    }
}

/// A run never extends beyond the text.
pub proof fn lemma_run_len_bound(s: Seq<char>, class: CharClass)
    ensures
        run_len(s, class) <= s.len(),
        forall|i: int| 0 <= i < run_len(s, class) ==> class.admits(#[trigger] s[i]),
        run_len(s, class) < s.len() ==> !class.admits(s[run_len(s, class) as int]),
    decreases s.len(),
{
    if s.len() > 0 && class.admits(s[0]) {
        lemma_run_len_bound(s.skip(1), class);
        assert forall|i: int| 0 <= i < run_len(s, class) implies class.admits(#[trigger] s[i]) by {
            if i > 0 {
                assert(s[i] == s.skip(1)[i - 1]);
            }
        }
    }
}

/// A text that is a run of one class followed by a character of another, or
/// by nothing, has that run as its longest.
pub proof fn lemma_run_len_split(s: Seq<char>, run: Seq<char>, rest: Seq<char>, class: CharClass)
    requires
        s == run + rest,
        forall|i: int| 0 <= i < run.len() ==> class.admits(#[trigger] run[i]),
        rest.len() > 0 ==> !class.admits(rest[0]),
    ensures
        run_len(s, class) == run.len(),
        run == s.take(run.len() as int),
        rest == s.skip(run.len() as int),
    decreases run.len(),
{
    assert(run =~= s.take(run.len() as int));
    assert(rest =~= s.skip(run.len() as int));
    if run.len() > 0 {
        assert(s[0] == run[0]);
        assert(s.skip(1) =~= run.skip(1) + rest);
        assert forall|i: int| 0 <= i < run.skip(1).len() implies class.admits(
            #[trigger] run.skip(1)[i],
        ) by {
            assert(run.skip(1)[i] == run[i + 1]);
        }
        lemma_run_len_split(s.skip(1), run.skip(1), rest, class);
    } else {
        assert(s =~= rest);
    }
}

/// `nom::alpha1` on a complete text: splits off the longest prefix of
/// alphabetic characters, and fails where that prefix is empty.
#[verifier::external_body]
fn alpha1<'a>(input: &'a str) -> (r: Option<(&'a str, &'a str)>)
    ensures
        r matches Some((rest, run)) ==> {
            &&& input@ == run@ + rest@
            &&& run@.len() > 0
            &&& forall|i: int| 0 <= i < run@.len() ==> is_alphabetic(#[trigger] run@[i])
            &&& rest@.len() > 0 ==> !is_alphabetic(rest@[0])
        },
        r is None ==> input@.len() == 0 || !is_alphabetic(input@[0]),
{
    match nom::alpha1(CompleteStr(input)) {
        Ok((rest, run)) => Some((rest.0, run.0)),
        Err(_) => None,
    }
}

/// `nom::digit` on a complete text: splits off the longest prefix of decimal
/// digits, and fails where that prefix is empty.
#[verifier::external_body]
fn digit<'a>(input: &'a str) -> (r: Option<(&'a str, &'a str)>)
    ensures
        r matches Some((rest, run)) ==> {
            &&& input@ == run@ + rest@
            &&& run@.len() > 0
            &&& forall|i: int| 0 <= i < run@.len() ==> is_digit(#[trigger] run@[i])
            &&& rest@.len() > 0 ==> !is_digit(rest@[0])
        },
        r is None ==> input@.len() == 0 || !is_digit(input@[0]),
{
    match nom::digit(CompleteStr(input)) {
        Ok((rest, run)) => Some((rest.0, run.0)),
        Err(_) => None,
    }
}

/// `nom::alphanumeric` on a complete text: splits off the longest prefix of
/// alphabetic characters and decimal digits, and fails where that prefix is
/// empty.
#[verifier::external_body]
fn alphanumeric<'a>(input: &'a str) -> (r: Option<(&'a str, &'a str)>)
    ensures
        r matches Some((rest, run)) ==> {
            &&& input@ == run@ + rest@
            &&& run@.len() > 0
            &&& forall|i: int|
                0 <= i < run@.len() ==> is_alphabetic(#[trigger] run@[i]) || is_digit(run@[i])
            &&& rest@.len() > 0 ==> !(is_alphabetic(rest@[0]) || is_digit(rest@[0]))
        },
        r is None ==> input@.len() == 0 || !(is_alphabetic(input@[0]) || is_digit(input@[0])),
{
    match nom::alphanumeric(CompleteStr(input)) {
        Ok((rest, run)) => Some((rest.0, run.0)),
        Err(_) => None,
    }
}

/// `nom::multispace` on a complete text: splits off the longest prefix of
/// spaces, tabs, carriage returns and line feeds, and fails where that
/// prefix is empty.
#[verifier::external_body]
fn multispace<'a>(input: &'a str) -> (r: Option<(&'a str, &'a str)>)
    ensures
        r matches Some((rest, run)) ==> {
            &&& input@ == run@ + rest@
            &&& run@.len() > 0
            &&& forall|i: int| 0 <= i < run@.len() ==> is_whitespace(#[trigger] run@[i])
            &&& rest@.len() > 0 ==> !is_whitespace(rest@[0])
        },
        r is None ==> input@.len() == 0 || !is_whitespace(input@[0]),
{
    match nom::multispace(CompleteStr(input)) {
        Ok((rest, run)) => Some((rest.0, run.0)),
        Err(_) => None,
    }
}

/// Splits off the longest prefix of characters of one class: what follows
/// it and the prefix itself, or nothing where the prefix is empty.
pub fn take_run<'a>(input: &'a str, class: CharClass) -> (r: Option<(&'a str, &'a str)>)
    ensures
        r is Some <==> run_len(input@, class) > 0,
        r matches Some((rest, run)) ==> {
            &&& run@ == input@.take(run_len(input@, class) as int)
            &&& rest@ == input@.skip(run_len(input@, class) as int)
        },
{
    let r = match class {
        CharClass::Alphabetic => alpha1(input),
        CharClass::Digit => digit(input),
        CharClass::Alphanumeric => alphanumeric(input),
        CharClass::Whitespace => multispace(input),
    };
    proof {
        match r {
            Some((rest, run)) => {
                lemma_run_len_split(input@, run@, rest@, class);
            },
            None => {},
        }
    }
    r
}

/// A text without the whitespace it starts with.
pub fn skip_whitespace<'a>(input: &'a str) -> (rest: &'a str)
    ensures
        rest@ == skip_ws(input@),
{
    match take_run(input, CharClass::Whitespace) {
        Some((rest, _)) => rest,
        None => {
            assert(input@.skip(0) =~= input@);
            input
        },
    }
}

/// What follows the first character of a text, if that character is the
/// given one.
pub fn strip_char<'a>(input: &'a str, c: char) -> (r: Option<&'a str>)
    ensures
        r is Some <==> input@.len() > 0 && input@[0] == c,
        r matches Some(rest) ==> rest@ == input@.skip(1),
{
    if input.is_empty() {
        return None;
    }
    if input.get_char(0) != c {
        return None;
    }
    let n = input.unicode_len();
    let rest = input.substring_char(1, n);
    assert(rest@ =~= input@.skip(1));
    Some(rest)
}

/// Splits off a marker character and the run of one class behind it: what
/// follows the run and the run itself.
pub fn take_marked_run<'a>(input: &'a str, marker: char, class: CharClass) -> (r: Option<
    (&'a str, &'a str),
>)
    ensures
        match r {
            Some((rest, run)) => marked_run(input@, marker, class) == Some((run@, rest@)),
            None => marked_run(input@, marker, class) is None,
        },
{
    match strip_char(input, marker) {
        Some(after) => take_run(after, class),
        None => None,
    }
}

/// Whether a text is a decimal number: one digit or more and nothing else.
pub open spec fn is_decimal(s: Seq<char>) -> bool {
    s.len() > 0 && forall|i: int| 0 <= i < s.len() ==> is_digit(#[trigger] s[i])
}

/// The number that a text denotes, if the text is a decimal number and the
/// number is at most `limit`.
pub fn decimal(text: &str, limit: u32) -> (r: Option<u32>)
    ensures
        r is Some <==> is_decimal(text@) && decimal_value(text@) <= limit,
        r matches Some(value) ==> value == decimal_value(text@),
{
    let mut value: u64 = 0;
    let mut fits = true;
    let mut digits = true;
    let mut count: usize = 0;
    for c in it: text.chars()
        invariant
            it.seq() == text@,
            value <= limit,
            count == 0 <==> it.index() == 0,
            digits <==> forall|i: int| 0 <= i < it.index() ==> is_digit(#[trigger] text@[i]),
            digits && fits ==> value == decimal_value(text@.take(it.index() as int)),
            digits && !fits ==> decimal_value(text@.take(it.index() as int)) > limit,
    {
        proof {
            assert(text@.take(it.index() + 1).drop_last() =~= text@.take(it.index() as int));
            assert(text@.take(it.index() + 1).last() == c);
        }
        if count == 0 {
            count = 1;
        }
        if !(c >= '0' && c <= '9') {
            digits = false;
        } else if fits {
            let digit = (c as u32 - '0' as u32) as u64;
            let next = value * 10 + digit;
            if next > limit as u64 {
                fits = false;
            } else {
                value = next;
            }
        }
    }
    proof {
        assert(text@.take(text@.len() as int) =~= text@);
    }
    if digits && fits && count != 0 {
        Some(value as u32)
    } else {
        None
    }
}

/// Splits off a marker character and the decimal number behind it, if the
/// number is at most `limit`: what follows the number and the number itself.
pub fn take_marked_number<'a>(input: &'a str, marker: char, limit: u32) -> (r: Option<
    (&'a str, u32),
>)
    ensures
        match r {
            Some((rest, value)) => marked_number(input@, marker, limit as nat) == Some(
                (value as nat, rest@),
            ),
            None => marked_number(input@, marker, limit as nat) is None,
        },
{
    match take_marked_run(input, marker, CharClass::Digit) {
        Some((rest, run)) => {
            proof {
                lemma_run_len_bound(input@.skip(1), CharClass::Digit);
            }
            match decimal(run, limit) {
                Some(value) => Some((rest, value)),
                None => None,
            }
        },
        None => None,
    }
}

} // verus!
