//! The command grammar: a write's bytes, decoded as UTF-8 with malformed
//! sequences replaced, split on whitespace into an operation name and an
//! optional decimal count.
use vstd::prelude::*;

verus! {

/// The characters that `String::from_utf8_lossy` yields for `bytes`.
pub uninterp spec fn lossy_of(bytes: Seq<u8>) -> Seq<char>;

/// Relies on `String::from_utf8_lossy`: the decoded characters depend on the
/// bytes alone, and bytes below 128 are ASCII, which decodes to itself.
#[verifier::external_body]
fn decode_lossy(bytes: &[u8]) -> (r: Vec<char>)
    ensures
        r@ == lossy_of(bytes@),
        (forall|i: int| 0 <= i < bytes@.len() ==> bytes@[i] < 128) ==> r@ == bytes@.map_values(
            |b: u8| b as char,
        ),
{
    String::from_utf8_lossy(bytes).chars().collect()
}

/// Unicode White_Space, the set that `char::is_whitespace` tests.
pub open spec fn is_ws(c: char) -> bool {
    let u = c as u32;
    ||| 0x09 <= u <= 0x0d
    ||| u == 0x20
    ||| u == 0x85
    ||| u == 0xa0
    ||| u == 0x1680
    ||| 0x2000 <= u <= 0x200a
    ||| u == 0x2028
    ||| u == 0x2029
    ||| u == 0x202f
    ||| u == 0x205f
    ||| u == 0x3000
}

/// Whether `c` is whitespace.
pub fn is_whitespace_char(c: char) -> (r: bool)
    ensures
        r == is_ws(c),
{
    let u = c as u32;
    (0x09 <= u && u <= 0x0d) || u == 0x20 || u == 0x85 || u == 0xa0 || u == 0x1680 || (0x2000
        <= u && u <= 0x200a) || u == 0x2028 || u == 0x2029 || u == 0x202f || u == 0x205f || u
        == 0x3000
}

/// Scanning `s` left to right: the words completed so far, and the word in
/// progress (empty between words).
pub open spec fn scan_words(s: Seq<char>) -> (Seq<Seq<char>>, Seq<char>)
    decreases s.len(),
{
    if s.len() == 0 {
        (Seq::empty(), Seq::empty())
    } else {
        let (done, cur) = scan_words(s.drop_last());
        let c = s.last();
        if is_ws(c) {
            if cur.len() > 0 {
                (done.push(cur), Seq::empty())
            } else {
                (done, cur)
            }
        } else {
            (done, cur.push(c))
        }
    }
}

/// The maximal runs of non-whitespace characters of `s`, in order.
pub open spec fn words(s: Seq<char>) -> Seq<Seq<char>> {
    let (done, cur) = scan_words(s);
    if cur.len() > 0 {
        done.push(cur)
    } else {
        done
    }
}

/// Splits `s` into its whitespace-separated words.
pub fn split_words(s: &Vec<char>) -> (r: Vec<Vec<char>>)
    ensures
        r@.map_values(|w: Vec<char>| w@) == words(s@),
{
    let mut done: Vec<Vec<char>> = Vec::new();
    let mut cur: Vec<char> = Vec::new();
    let mut i: usize = 0;
    while i < s.len()
        invariant
            i <= s@.len(),
            scan_words(s@.take(i as int)) == (done@.map_values(|w: Vec<char>| w@), cur@),
        decreases s@.len() - i,
    {
        let c = s[i];
        assert(s@.take(i + 1).drop_last() == s@.take(i as int));
        assert(s@.take(i + 1).last() == c);
        if is_whitespace_char(c) {
            if cur.len() > 0 {
                let mut w: Vec<char> = Vec::new();
                std::mem::swap(&mut w, &mut cur);
                done.push(w);
                assert(done@.map_values(|w: Vec<char>| w@) =~= scan_words(s@.take(i + 1)).0);
                assert(cur@ =~= Seq::<char>::empty());
            }
        } else {
            cur.push(c);
        }
        i = i + 1;
    }
    assert(s@.take(s@.len() as int) == s@);
    if cur.len() > 0 {
        done.push(cur);
        assert(done@.map_values(|w: Vec<char>| w@) =~= words(s@));
    }
    done
}

/// Whether `c` is an ASCII decimal digit.
pub open spec fn is_digit(c: char) -> bool {
    48 <= c as u32 <= 57
}

/// Whether every character of `s` is a decimal digit.
pub open spec fn all_digits(s: Seq<char>) -> bool {
    forall|i: int| 0 <= i < s.len() ==> is_digit(#[trigger] s[i])
}

/// The number that the decimal digits `s` spell (zero for no digits).
pub open spec fn digits_value(s: Seq<char>) -> int
    decreases s.len(),
{
    if s.len() == 0 {
        0
    } else {
        digits_value(s.drop_last()) * 10 + (s.last() as u32 - 48)
    }
}

/// A signed decimal integer as `i64`'s `FromStr` reads it: an optional `+`
/// or `-`, then one or more ASCII digits, with a value that fits in `i64`.
pub open spec fn parse_int(t: Seq<char>) -> Option<i64> {
    let signed = t.len() > 0 && (t[0] == '-' || t[0] == '+');
    let ds = if signed {
        t.drop_first()
    } else {
        t
    };
    let v = if t.len() > 0 && t[0] == '-' {
        -digits_value(ds)
    } else {
        digits_value(ds)
    };
    if ds.len() > 0 && all_digits(ds) && i64::MIN
        <= v <= i64::MAX {
        Some(v as i64)
    } else {
        None
    }
}

proof fn lemma_digits_nonneg(s: Seq<char>)
    requires
        forall|i: int| 0 <= i < s.len() ==> is_digit(#[trigger] s[i]),
    ensures
        digits_value(s) >= 0,
    decreases s.len(),
{
    if s.len() > 0 {
        lemma_digits_nonneg(s.drop_last());
    }
}

/// Saturation bound of the digit accumulator: one more than the largest
/// magnitude an `i64` can take.
const MAGNITUDE_CAP: u128 = 0x8000_0000_0000_0001;

/// Reads `t` as a signed decimal integer; `None` where `i64::from_str` fails.
pub fn parse_count(t: &Vec<char>) -> (r: Option<i64>)
    ensures
        r == parse_int(t@),
{
    let n = t.len();
    if n == 0 {
        return None;
    }
    let neg = t[0] == '-';
    let start: usize = if t[0] == '-' || t[0] == '+' {
        1
    } else {
        0
    };
    let ghost ds = if start == 1 {
        t@.drop_first()
    } else {
        t@
    };
    assert(ds == t@.subrange(start as int, n as int));
    if start == n {
        return None;
    }
    let mut acc: u128 = 0;
    let mut i: usize = start;
    while i < n
        invariant
            start <= i <= n,
            n == t@.len(),
            ds == t@.subrange(start as int, n as int),
            n > 0,
            neg == (t@[0] == '-'),
            start == (if t@[0] == '-' || t@[0] == '+' {
                1usize
            } else {
                0usize
            }),
            forall|k: int| start <= k < i ==> is_digit(#[trigger] t@[k]),
            acc == (if digits_value(t@.subrange(start as int, i as int)) < MAGNITUDE_CAP {
                digits_value(t@.subrange(start as int, i as int))
            } else {
                MAGNITUDE_CAP as int
            }),
        decreases n - i,
    {
        let c = t[i];
        let u = c as u32;
        if u < 48 || u > 57 {
            proof {
                assert(ds[i - start] == c);
                assert(!is_digit(ds[i - start]));
                assert(!all_digits(ds));
            }
            return None;
        }
        let ghost prev = t@.subrange(start as int, i as int);
        let ghost next = t@.subrange(start as int, i + 1);
        proof {
            assert(next.drop_last() == prev);
            assert(next.last() == c);
            lemma_digits_nonneg(prev);
        }
        let d = (u - 48) as u128;
        if acc >= MAGNITUDE_CAP {
            assert(digits_value(next) >= MAGNITUDE_CAP) by (nonlinear_arith)
                requires
                    digits_value(next) == digits_value(prev) * 10 + d,
                    digits_value(prev) >= MAGNITUDE_CAP,
                    d >= 0,
            ;
        } else {
            acc = acc * 10 + d;
            if acc > MAGNITUDE_CAP {
                acc = MAGNITUDE_CAP;
            }
        }
        i = i + 1;
    }
    assert(t@.subrange(start as int, n as int) == ds);
    if neg {
        if acc <= 0x8000_0000_0000_0000 {
            Some((0i128 - acc as i128) as i64)
        } else {
            None
        }
    } else {
        if acc <= 0x7fff_ffff_ffff_ffff {
            Some(acc as i64)
        } else {
            None
        }
    }
}

/// The operation a command names.
#[derive(Clone, Copy, Debug, PartialEq, Eq, Structural)]
pub enum Op {
    /// `INSERT_SEQ`: build a fresh table and time inserting keys `0..n`.
    InsertSeq,
    /// `LOOKUP_SEQ`: time looking up keys `0..n` in the current table.
    LookupSeq,
    /// Any other name: accepted, with no effect.
    Other,
}

/// One parsed command: an operation and its count.
#[derive(Clone, Copy, Debug, PartialEq, Eq, Structural)]
pub struct Command {
    pub op: Op,
    pub count: i64,
}

/// Why a payload is not a command.
#[derive(Clone, Copy, Debug, PartialEq, Eq, Structural)]
pub enum CommandError {
    /// The payload holds no word at all.
    Empty,
}

pub open spec fn insert_word() -> Seq<char> {
    seq!['I', 'N', 'S', 'E', 'R', 'T', '_', 'S', 'E', 'Q']
}

pub open spec fn lookup_word() -> Seq<char> {
    seq!['L', 'O', 'O', 'K', 'U', 'P', '_', 'S', 'E', 'Q']
}

/// The operation that the word `w` names.
pub open spec fn op_of(w: Seq<char>) -> Op {
    if w == insert_word() {
        Op::InsertSeq
    } else if w == lookup_word() {
        Op::LookupSeq
    } else {
        Op::Other
    }
}

/// The count of a command's words: the second word read as an integer,
/// or 0 where it is missing or not an integer.
pub open spec fn count_of(ws: Seq<Seq<char>>) -> i64 {
    if ws.len() > 1 {
        match parse_int(ws[1]) {
            Some(v) => v,
            None => 0,
        }
    } else {
        0
    }
}

/// The command that the characters `text` hold.
pub open spec fn command_of_text(text: Seq<char>) -> Result<Command, CommandError> {
    let ws = words(text);
    if ws.len() == 0 {
        Err(CommandError::Empty)
    } else {
        Ok(Command { op: op_of(ws[0]), count: count_of(ws) })
    }
}

/// The command that a write's payload holds.
pub open spec fn command_of(payload: Seq<u8>) -> Result<Command, CommandError> {
    command_of_text(lossy_of(payload))
}

fn same_chars(a: &Vec<char>, b: &Vec<char>) -> (r: bool)
    ensures
        r == (a@ == b@),
{
    if a.len() != b.len() {
        return false;
    }
    let mut i: usize = 0;
    while i < a.len()
        invariant
            a@.len() == b@.len(),
            i <= a@.len(),
            forall|k: int| 0 <= k < i ==> a@[k] == b@[k],
        decreases a@.len() - i,
    {
        if a[i] != b[i] {
            return false;
        }
        i = i + 1;
    }
    assert(a@ =~= b@);
    true
}

/// Reads a command from already decoded characters.
pub fn parse_command_text(text: &Vec<char>) -> (r: Result<Command, CommandError>)
    ensures
        r == command_of_text(text@),
{
    let ws = split_words(text);
    proof {
        assert(ws@.len() == words(text@).len());
        if ws@.len() > 0 {
            assert(ws@[0]@ == words(text@)[0]);
        }
        if ws@.len() > 1 {
            assert(ws@[1]@ == words(text@)[1]);
        }
    }
    if ws.len() == 0 {
        return Err(CommandError::Empty);
    }
    let insert_name: Vec<char> = vec!['I', 'N', 'S', 'E', 'R', 'T', '_', 'S', 'E', 'Q'];
    let lookup_name: Vec<char> = vec!['L', 'O', 'O', 'K', 'U', 'P', '_', 'S', 'E', 'Q'];
    assert(insert_name@ == insert_word());
    assert(lookup_name@ == lookup_word());
    let op = if same_chars(&ws[0], &insert_name) {
        Op::InsertSeq
    } else if same_chars(&ws[0], &lookup_name) {
        Op::LookupSeq
    } else {
        Op::Other
    };
    let count: i64 = if ws.len() > 1 {
        match parse_count(&ws[1]) {
            Some(v) => v,
            None => 0,
        }
    } else {
        0
    };
    Ok(Command { op, count })
}

/// Reads a command from a write's payload. Fails exactly when the payload
/// holds no word.
pub fn parse_command(payload: &[u8]) -> (r: Result<Command, CommandError>)
    ensures
        r == command_of(payload@),
{
    let text = decode_lossy(payload);
    parse_command_text(&text)
}

} // verus!
