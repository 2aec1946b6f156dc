//! The command grammar: classifies a command text into a closed set of
//! variants, in a fixed priority order. The literal keywords are checked
//! first, then the parameterized patterns, which match anywhere in the text
//! at the leftmost possible position, as an unanchored search would.
//!
//! Monetary values are held in cents, so a decimal with up to two fractional
//! digits is represented exactly.

use vstd::prelude::*;
use vstd::string::*;

verus! {

/// A recognized user command. `Codefall` carries the requested number of
/// entries; `Multiple` carries the base value in cents.
#[derive(Clone, Copy, Debug, PartialEq, Eq, Structural)]
pub enum Command {
    Help,
    Bingo,
    Codefall(u32),
    Multiple(u64),
    Unknown,
}

/// The value a digit byte depicts.
pub open spec fn digit_val(b: u8) -> nat {
    (b - 48) as nat
}

/// True of the ASCII bytes `'0'` through `'9'`.
pub open spec fn is_digit(b: u8) -> bool {
    48 <= b <= 57
}

/// The text is exactly the keyword `help`.
pub open spec fn is_help_text(s: Seq<u8>) -> bool {
    s.len() == 4 && s[0] == 104 && s[1] == 101 && s[2] == 108 && s[3] == 112
}

/// The text is exactly the keyword `bingo`.
pub open spec fn is_bingo_text(s: Seq<u8>) -> bool {
    s.len() == 5 && s[0] == 98 && s[1] == 105 && s[2] == 110 && s[3] == 103 && s[4] == 111
}

/// The word `codefall` stands at position `i`.
pub open spec fn codefall_at(s: Seq<u8>, i: int) -> bool {
    &&& 0 <= i
    &&& i + 8 <= s.len()
    &&& s[i] == 99
    &&& s[i + 1] == 111
    &&& s[i + 2] == 100
    &&& s[i + 3] == 101
    &&& s[i + 4] == 102
    &&& s[i + 5] == 97
    &&& s[i + 6] == 108
    &&& s[i + 7] == 108
}

/// The position of the first occurrence of `codefall` at or after `i`.
pub open spec fn codefall_find(s: Seq<u8>, i: int) -> Option<int>
    decreases s.len() - i,
{
    if i + 8 > s.len() {
        None
    } else if codefall_at(s, i) {
        Some(i)
    } else {
        codefall_find(s, i + 1)
    }
}

/// The limit parsed right after a `codefall` word ending at `j`: a single
/// space and a digit 1-3 give that digit, anything else defaults to 1.
pub open spec fn limit_after(s: Seq<u8>, j: int) -> u32 {
    if j + 2 <= s.len() && s[j] == 32 && 49 <= s[j + 1] <= 51 {
        (s[j + 1] - 48) as u32
    } else {
        1
    }
}

/// The limit carried by the first codefall match in the text.
pub open spec fn codefall_limit(s: Seq<u8>) -> u32 {
    limit_after(s, codefall_find(s, 0)->Some_0 + 8)
}

/// The word `mult` stands at position `i`.
pub open spec fn w_mult_at(s: Seq<u8>, i: int) -> bool {
    &&& 0 <= i
    &&& i + 4 <= s.len()
    &&& s[i] == 109
    &&& s[i + 1] == 117
    &&& s[i + 2] == 108
    &&& s[i + 3] == 116
}

/// The word `multi` stands at position `i`.
pub open spec fn w_multi_at(s: Seq<u8>, i: int) -> bool {
    w_mult_at(s, i) && i + 5 <= s.len() && s[i + 4] == 105
}

/// The letters `multipl` stand at position `i`.
pub open spec fn w_multipl_at(s: Seq<u8>, i: int) -> bool {
    w_multi_at(s, i) && i + 7 <= s.len() && s[i + 5] == 112 && s[i + 6] == 108
}

/// The word `multiply` stands at position `i`.
pub open spec fn w_multiply_at(s: Seq<u8>, i: int) -> bool {
    w_multipl_at(s, i) && i + 8 <= s.len() && s[i + 7] == 121
}

/// The word `multiple` stands at position `i`.
pub open spec fn w_multiple_at(s: Seq<u8>, i: int) -> bool {
    w_multipl_at(s, i) && i + 8 <= s.len() && s[i + 7] == 101
}

/// The word `multiples` stands at position `i`.
pub open spec fn w_multiples_at(s: Seq<u8>, i: int) -> bool {
    w_multiple_at(s, i) && i + 9 <= s.len() && s[i + 8] == 115
}

/// A space stands at position `j`.
pub open spec fn space_at(s: Seq<u8>, j: int) -> bool {
    0 <= j < s.len() && s[j] == 32
}

/// If one of the word forms of the multiple pattern, followed by a space,
/// stands at `i`: the position right after that space. The forms are
/// mutually exclusive here since each must be followed by a space.
pub open spec fn multiple_word_end(s: Seq<u8>, i: int) -> Option<int> {
    if w_multiply_at(s, i) && space_at(s, i + 8) {
        Some(i + 9)
    } else if w_multiples_at(s, i) && space_at(s, i + 9) {
        Some(i + 10)
    } else if w_multiple_at(s, i) && space_at(s, i + 8) {
        Some(i + 9)
    } else if w_multi_at(s, i) && space_at(s, i + 5) {
        Some(i + 6)
    } else if w_mult_at(s, i) && space_at(s, i + 4) {
        Some(i + 5)
    } else {
        None
    }
}

/// The length of the maximal run of digits starting at `i`.
pub open spec fn digit_run(s: Seq<u8>, i: int) -> int
    decreases s.len() - i,
{
    if 0 <= i < s.len() && is_digit(s[i]) {
        1 + digit_run(s, i + 1)
    } else {
        0
    }
}

/// The value of the `len` digits starting at `i`.
pub open spec fn digits_val(s: Seq<u8>, i: int, len: int) -> nat
    decreases len,
{
    if len <= 0 {
        0
    } else {
        digits_val(s, i, len - 1) * 10 + digit_val(s[i + len - 1])
    }
}

/// The decimal number standing at `j` — an optional dollar sign, at least
/// one digit, and optionally a point with one or two fractional digits —
/// as a value in cents; `None` when no digit stands there. The integer run
/// is maximal and the fractional digits are taken greedily, at most two.
pub open spec fn cents_at(s: Seq<u8>, j: int) -> Option<nat> {
    let j2: int = if j < s.len() && s[j] == 36 {
        j + 1
    } else {
        j
    };
    let d = digit_run(s, j2);
    if d == 0 {
        None
    } else {
        let whole = digits_val(s, j2, d);
        let p = j2 + d;
        if p + 2 <= s.len() && s[p] == 46 && is_digit(s[p + 1]) {
            if p + 3 <= s.len() && is_digit(s[p + 2]) {
                Some(whole * 100 + digit_val(s[p + 1]) * 10 + digit_val(s[p + 2]))
            } else {
                Some(whole * 100 + digit_val(s[p + 1]) * 10)
            }
        } else {
            Some(whole * 100)
        }
    }
}

/// The cents value of a full multiple-pattern match at position `i`.
pub open spec fn multiple_at(s: Seq<u8>, i: int) -> Option<nat> {
    match multiple_word_end(s, i) {
        None => None,
        Some(j) => cents_at(s, j),
    }
}

/// The cents value of the leftmost full multiple-pattern match at or after
/// position `i`.
pub open spec fn multiple_from(s: Seq<u8>, i: int) -> Option<nat>
    decreases s.len() - i,
{
    if i >= s.len() {
        None
    } else if multiple_at(s, i) is Some {
        multiple_at(s, i)
    } else {
        multiple_from(s, i + 1)
    }
}

/// A natural number squeezed into a `u64`: the value itself when it fits,
/// `u64::MAX` otherwise.
pub open spec fn sat_u64(n: nat) -> u64 {
    if n <= u64::MAX {
        n as u64
    } else {
        u64::MAX
    }
}

/// What a command text means: the keywords first, then the codefall
/// pattern, then the multiple pattern, then `Unknown`. The order is part of
/// the contract.
pub open spec fn parse_spec(s: Seq<u8>) -> Command {
    if is_help_text(s) {
        Command::Help
    } else if is_bingo_text(s) {
        Command::Bingo
    } else if codefall_find(s, 0) is Some {
        Command::Codefall(codefall_limit(s))
    } else {
        match multiple_from(s, 0) {
            Some(v) => Command::Multiple(sat_u64(v)),
            None => Command::Unknown,
        }
    }
}

impl Command {
    /// Classifies a command text, per `parse_spec`.
    pub fn parse(cmd: &str) -> (c: Command)
        ensures
            c == parse_spec(cmd.spec_bytes()),
    {
        let s: &[u8] = cmd.as_bytes();
        if s.len() == 4 && s[0] == 104 && s[1] == 101 && s[2] == 108 && s[3] == 112 {
            return Command::Help;
        }
        if s.len() == 5 && s[0] == 98 && s[1] == 105 && s[2] == 110 && s[3] == 103 && s[4] == 111 {
            return Command::Bingo;
        }
        if let Some(i) = find_codefall(s) {
            let limit = limit_after_exec(s, i + 8);
            return Command::Codefall(limit);
        }
        match find_multiple(s) {
            Some(v) => Command::Multiple(v),
            None => Command::Unknown,
        }
    }
}

impl<'a> From<&'a str> for Command {
    /// Classifies a command text, per `parse_spec`.
    fn from(command: &'a str) -> (c: Command) {
        Command::parse(command)
    }
}

impl<'a> vstd::std_specs::convert::FromSpecImpl<&'a str> for Command {
    open spec fn obeys_from_spec() -> bool {
        true
    }

    open spec fn from_spec(command: &'a str) -> Command {
        parse_spec(command.spec_bytes())
    }
}

/// Scans for the first occurrence of `codefall`.
fn find_codefall(s: &[u8]) -> (r: Option<usize>)
    ensures
        r matches Some(i) ==> codefall_find(s@, 0) == Some(i as int) && i + 8 <= s@.len(),
        r is None ==> codefall_find(s@, 0) is None,
{
    let n = s.len();
    if n < 8 {
        return None;
    }
    let mut i: usize = 0;
    while i <= n - 8
        invariant
            8 <= n == s@.len(),
            i <= n - 8 + 1,
            codefall_find(s@, 0) == codefall_find(s@, i as int),
        decreases n - i,
    {
        if s[i] == 99 && s[i + 1] == 111 && s[i + 2] == 100 && s[i + 3] == 101 && s[i + 4] == 102
            && s[i + 5] == 97 && s[i + 6] == 108 && s[i + 7] == 108 {
            assert(codefall_at(s@, i as int));
            return Some(i);
        }
        assert(!codefall_at(s@, i as int));
        i = i + 1;
    }
    None
}

/// Reads the limit digit right after a codefall word ending at `j`.
fn limit_after_exec(s: &[u8], j: usize) -> (r: u32)
    requires
        j <= s@.len(),
    ensures
        r == limit_after(s@, j as int),
{
    if s.len() - j >= 2 && s[j] == 32 && 49 <= s[j + 1] && s[j + 1] <= 51 {
        (s[j + 1] - 48) as u32
    } else {
        1
    }
}

/// Recognizes one of the multiple-pattern word forms with its trailing
/// space at position `i`.
fn word_end_at(s: &[u8], i: usize) -> (r: Option<usize>)
    requires
        i < s@.len(),
    ensures
        r matches Some(j) ==> multiple_word_end(s@, i as int) == Some(j as int) && j <= s@.len(),
        r is None ==> multiple_word_end(s@, i as int) is None,
{
    let n = s.len();
    if !(n - i >= 4 && s[i] == 109 && s[i + 1] == 117 && s[i + 2] == 108 && s[i + 3] == 116) {
        return None;
    }
    if n - i >= 9 && s[i + 4] == 105 && s[i + 5] == 112 && s[i + 6] == 108 && s[i + 7] == 121
        && s[i + 8] == 32 {
        return Some(i + 9);
    }
    if n - i >= 10 && s[i + 4] == 105 && s[i + 5] == 112 && s[i + 6] == 108 && s[i + 7] == 101
        && s[i + 8] == 115 && s[i + 9] == 32 {
        return Some(i + 10);
    }
    if n - i >= 9 && s[i + 4] == 105 && s[i + 5] == 112 && s[i + 6] == 108 && s[i + 7] == 101
        && s[i + 8] == 32 {
        return Some(i + 9);
    }
    if n - i >= 6 && s[i + 4] == 105 && s[i + 5] == 32 {
        return Some(i + 6);
    }
    if n - i >= 5 && s[i + 4] == 32 {
        return Some(i + 5);
    }
    None
}

/// Measures the maximal digit run starting at `j`.
fn digit_run_exec(s: &[u8], j: usize) -> (r: usize)
    requires
        j <= s@.len(),
    ensures
        r as int == digit_run(s@, j as int),
        j + r <= s@.len(),
{
    let mut k = j;
    while k < s.len() && 48 <= s[k] && s[k] <= 57
        invariant
            j <= k <= s@.len(),
            digit_run(s@, j as int) == k - j + digit_run(s@, k as int),
        decreases s@.len() - k,
    {
        k = k + 1;
    }
    k - j
}

/// Evaluates `len` digits starting at `j`, saturating at `u64::MAX`.
fn digits_val_exec(s: &[u8], j: usize, len: usize) -> (r: u64)
    requires
        j + len <= s@.len(),
        forall|t: int| j <= t < j + len ==> is_digit(s@[t]),
    ensures
        r == sat_u64(digits_val(s@, j as int, len as int)),
{
    let n = s.len();
    let mut v: u64 = 0;
    let mut k: usize = 0;
    while k < len
        invariant
            k <= len,
            n == s@.len(),
            j + len <= s@.len(),
            forall|t: int| j <= t < j + len ==> is_digit(s@[t]),
            v == sat_u64(digits_val(s@, j as int, k as int)),
        decreases len - k,
    {
        assert(is_digit(s@[j + k as int]));
        let d = (s[j + k] - 48) as u64;
        let ghost prev: nat = digits_val(s@, j as int, k as int);
        let ghost next: nat = digits_val(s@, j as int, k as int + 1);
        proof {
            assert(next == prev * 10 + digit_val(s@[j + k as int]));
            if prev > u64::MAX {
                assert(prev * 10 >= prev) by (nonlinear_arith)
                    requires prev >= 0,
                ;
            }
        }
        v = match v.checked_mul(10) {
            Some(x) => match x.checked_add(d) {
                Some(y) => y,
                None => u64::MAX,
            },
            None => u64::MAX,
        };
        proof {
            if prev <= u64::MAX {
                assert(prev * 10 + digit_val(s@[j + k as int]) == next);
            }
            assert(v == sat_u64(next));
        }
        k = k + 1;
    }
    v
}

/// Parses the decimal (with optional dollar sign) standing at `j`,
/// saturating the cents value at `u64::MAX`.
fn cents_at_exec(s: &[u8], j: usize) -> (r: Option<u64>)
    requires
        j <= s@.len(),
    ensures
        r matches Some(v) ==> (cents_at(s@, j as int) matches Some(c) && v == sat_u64(c)),
        r is None ==> cents_at(s@, j as int) is None,
{
    let n = s.len();
    let j2 = if j < n && s[j] == 36 {
        j + 1
    } else {
        j
    };
    let d = digit_run_exec(s, j2);
    if d == 0 {
        return None;
    }
    proof {
        lemma_digit_run_digits(s@, j2 as int);
    }
    let whole = digits_val_exec(s, j2, d);
    let p = j2 + d;
    let ghost whole_exact: nat = digits_val(s@, j2 as int, d as int);
    let scaled = match whole.checked_mul(100) {
        Some(x) => x,
        None => u64::MAX,
    };
    proof {
        if whole_exact > u64::MAX {
            assert(whole_exact * 100 >= whole_exact) by (nonlinear_arith)
                requires whole_exact >= 0,
            ;
        }
        assert(scaled == sat_u64(whole_exact * 100));
    }
    if n - p >= 2 && s[p] == 46 && 48 <= s[p + 1] && s[p + 1] <= 57 {
        let f1 = (s[p + 1] - 48) as u64;
        if n - p >= 3 && 48 <= s[p + 2] && s[p + 2] <= 57 {
            let f2 = (s[p + 2] - 48) as u64;
            let r = scaled.saturating_add(f1 * 10 + f2);
            proof {
                assert(r == sat_u64(whole_exact * 100 + digit_val(s@[p as int + 1]) * 10
                    + digit_val(s@[p as int + 2])));
            }
            Some(r)
        } else {
            let r = scaled.saturating_add(f1 * 10);
            proof {
                assert(r == sat_u64(whole_exact * 100 + digit_val(s@[p as int + 1]) * 10));
            }
            Some(r)
        }
    } else {
        Some(scaled)
    }
}

/// Every byte of a maximal digit run is a digit.
proof fn lemma_digit_run_digits(s: Seq<u8>, i: int)
    ensures
        forall|t: int| i <= t < i + digit_run(s, i) ==> is_digit(s[t]),
    decreases s.len() - i,
{
    if 0 <= i < s.len() && is_digit(s[i]) {
        lemma_digit_run_digits(s, i + 1);
    }
}

/// Scans for the leftmost full multiple-pattern match.
fn find_multiple(s: &[u8]) -> (r: Option<u64>)
    ensures
        r matches Some(v) ==> (multiple_from(s@, 0) matches Some(c) && v == sat_u64(c)),
        r is None ==> multiple_from(s@, 0) is None,
{
    let mut i: usize = 0;
    while i < s.len()
        invariant
            i <= s@.len(),
            multiple_from(s@, 0) == multiple_from(s@, i as int),
        decreases s@.len() - i,
    {
        match word_end_at(s, i) {
            Some(j) => {
                match cents_at_exec(s, j) {
                    Some(v) => {
                        return Some(v);
                    },
                    None => {
                        assert(multiple_at(s@, i as int) is None);
                    },
                }
            },
            None => {
                assert(multiple_at(s@, i as int) is None);
            },
        }
        i = i + 1;
    }
    None
}

/// Law: a text that is exactly one of the literal keywords always parses to
/// that keyword's command, whatever else the parameterized patterns would
/// make of it.
pub proof fn lemma_keyword_priority(s: Seq<u8>)
    ensures
        is_help_text(s) ==> parse_spec(s) == Command::Help,
        is_bingo_text(s) ==> parse_spec(s) == Command::Bingo,
{
}

/// The first codefall occurrence found at or after `lo` is a real
/// occurrence, no earlier than `lo`.
pub proof fn lemma_codefall_find_occurs(s: Seq<u8>, lo: int, i: int)
    requires
        codefall_find(s, lo) == Some(i),
    ensures
        codefall_at(s, i),
        lo <= i,
    decreases s.len() - lo,
{
    if lo + 8 > s.len() {
    } else if codefall_at(s, lo) {
    } else {
        lemma_codefall_find_occurs(s, lo + 1, i);
    }
}

/// Law: a text whose first `codefall` occurrence is followed by a space and
/// a digit 1-3 parses to `Codefall` of that digit.
pub proof fn lemma_codefall_with_digit(s: Seq<u8>, i: int)
    requires
        codefall_find(s, 0) == Some(i),
        i + 10 <= s.len(),
        s[i + 8] == 32,
        49 <= s[i + 9] <= 51,
    ensures
        parse_spec(s) == Command::Codefall((s[i + 9] - 48) as u32),
{
    lemma_codefall_find_occurs(s, 0, i);
    assert(!is_help_text(s));
    assert(!is_bingo_text(s));
}

/// Law: a text that contains `codefall`, with the first occurrence not
/// followed by a space and a digit 1-3, parses to `Codefall(1)`.
pub proof fn lemma_codefall_default_limit(s: Seq<u8>, i: int)
    requires
        codefall_find(s, 0) == Some(i),
        !(i + 10 <= s.len() && s[i + 8] == 32 && 49 <= s[i + 9] <= 51),
    ensures
        parse_spec(s) == Command::Codefall(1),
{
    lemma_codefall_find_occurs(s, 0, i);
    assert(!is_help_text(s));
    assert(!is_bingo_text(s));
}

/// Law: a text that is no keyword, contains no `codefall`, and matches the
/// multiple pattern with cents value `v` parses to `Multiple` of `v`
/// (squeezed into a `u64`).
pub proof fn lemma_multiple_value(s: Seq<u8>, v: nat)
    requires
        !is_help_text(s),
        !is_bingo_text(s),
        codefall_find(s, 0) is None,
        multiple_from(s, 0) == Some(v),
    ensures
        parse_spec(s) == Command::Multiple(sat_u64(v)),
{
}

} // verus!
