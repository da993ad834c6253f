//! The result texts and the result buffer that reads of the control file
//! return.
use vstd::prelude::*;

verus! {

/// The decimal digits of `n`, most significant first, as ASCII bytes.
pub open spec fn dec(n: nat) -> Seq<u8>
    decreases n,
{
    if n < 10 {
        seq![(48 + n) as u8]
    } else {
        dec(n / 10).push((48 + n % 10) as u8)
    }
}

/// The last `width` decimal digits of `n`, zero-padded, as ASCII bytes.
pub open spec fn fixed_digits(n: nat, width: nat) -> Seq<u8>
    decreases width,
{
    if width == 0 {
        Seq::empty()
    } else {
        fixed_digits(n / 10, (width - 1) as nat).push((48 + n % 10) as u8)
    }
}

/// Elapsed time rounded to the nearest microsecond: the whole seconds and
/// the microseconds below them.
pub open spec fn rounded_micros(secs: u64, nanos: u32) -> (nat, nat) {
    let micros = (nanos as nat + 500) / 1000;
    ((secs as nat + micros / 1_000_000) as nat, (micros % 1_000_000) as nat)
}

/// `"OK <seconds with six decimals>\n"` for an elapsed time of `secs`
/// seconds and `nanos` nanoseconds.
pub open spec fn ok_text(secs: u64, nanos: u32) -> Seq<u8> {
    let (whole, frac) = rounded_micros(secs, nanos);
    seq![79u8, 75u8, 32u8] + dec(whole) + seq![46u8] + fixed_digits(frac, 6) + seq![10u8]
}

/// `"ERROR NO_TABLE\n"`.
pub open spec fn no_table_text() -> Seq<u8> {
    seq![69u8, 82u8, 82u8, 79u8, 82u8, 32u8, 78u8, 79u8, 95u8, 84u8, 65u8, 66u8, 76u8, 69u8, 10u8]
}

/// `"READY\n"`.
pub open spec fn ready_text() -> Seq<u8> {
    seq![82u8, 69u8, 65u8, 68u8, 89u8, 10u8]
}

/// Whether `t` reports a completed run: `ok_text` of some elapsed time.
pub open spec fn is_ok_text(t: Seq<u8>) -> bool {
    exists|secs: u64, nanos: u32| nanos < 1_000_000_000 && t == #[trigger] ok_text(secs, nanos)
}

fn push_dec(out: &mut Vec<u8>, n: u128)
    ensures
        final(out)@ == old(out)@ + dec(n as nat),
    decreases n,
{
    if n >= 10 {
        push_dec(out, n / 10);
    }
    out.push(48 + (n % 10) as u8);
    proof {
        if n >= 10 {
            assert(dec(n as nat) == dec((n / 10) as nat).push((48 + n % 10) as u8));
        }
    }
}

fn push_fixed(out: &mut Vec<u8>, n: u64, width: u32)
    ensures
        final(out)@ == old(out)@ + fixed_digits(n as nat, width as nat),
    decreases width,
{
    if width > 0 {
        push_fixed(out, n / 10, width - 1);
        out.push(48 + (n % 10) as u8);
        assert(fixed_digits(n as nat, width as nat) == fixed_digits(
            (n / 10) as nat,
            (width - 1) as nat,
        ).push((48 + n % 10) as u8));
    }
}

/// The result text of a run that took `secs` seconds and `nanos` nanoseconds.
pub fn format_ok(secs: u64, nanos: u32) -> (r: Vec<u8>)
    requires
        nanos < 1_000_000_000,
    ensures
        r@ == ok_text(secs, nanos),
{
    let micros: u64 = (nanos as u64 + 500) / 1000;
    let whole: u128 = secs as u128 + (micros / 1_000_000) as u128;
    let frac: u64 = micros % 1_000_000;
    // "OK "
    let mut out: Vec<u8> = vec![79u8, 75u8, 32u8];
    push_dec(&mut out, whole);
    out.push(46u8);
    push_fixed(&mut out, frac, 6);
    out.push(10u8);
    assert(out@ =~= ok_text(secs, nanos));
    out
}

/// The result text of a lookup run with no table to run against.
pub fn no_table_message() -> (r: Vec<u8>)
    ensures
        r@ == no_table_text(),
{
    // "ERROR NO_TABLE\n"
    let r: Vec<u8> = vec![69u8, 82u8, 82u8, 79u8, 82u8, 32u8, 78u8, 79u8, 95u8, 84u8, 65u8, 66u8, 76u8, 69u8, 10u8];
    assert(r@ =~= no_table_text());
    r
}

/// The latest result text, readable from any byte offset.
pub struct ResultBuffer {
    bytes: Vec<u8>,
}

impl View for ResultBuffer {
    type V = Seq<u8>;

    closed spec fn view(&self) -> Seq<u8> {
        self.bytes@
    }
}

impl ResultBuffer {
    /// A buffer holding `"READY\n"`.
    pub fn new() -> (r: ResultBuffer)
        ensures
            r@ == ready_text(),
    {
        // "READY\n"
        let bytes: Vec<u8> = vec![82u8, 69u8, 65u8, 68u8, 89u8, 10u8];
        assert(bytes@ =~= ready_text());
        ResultBuffer { bytes }
    }

    /// The buffer's length in bytes, which is the control file's size.
    pub fn len(&self) -> (r: u64)
        ensures
            r == self@.len(),
    {
        self.bytes.len() as u64
    }

    /// The bytes from `offset` on; none where `offset`, read as unsigned, is
    /// at or past the end.
    pub fn read_at(&self, offset: i64) -> (r: Vec<u8>)
        ensures
            r@ == (if (offset as u64) < self@.len() {
                self@.subrange(offset as u64 as int, self@.len() as int)
            } else {
                Seq::<u8>::empty()
            }),
    {
        let start = offset as u64;
        let mut out: Vec<u8> = Vec::new();
        if start >= self.bytes.len() as u64 {
            return out;
        }
        let mut i: usize = start as usize;
        while i < self.bytes.len()
            invariant
                start <= i <= self.bytes@.len(),
                out@ == self.bytes@.subrange(start as int, i as int),
            decreases self.bytes@.len() - i,
        {
            out.push(self.bytes[i]);
            assert(out@ =~= self.bytes@.subrange(start as int, i + 1));
            i = i + 1;
        }
        out
    }

    /// Overwrites the whole buffer with `text`.
    pub fn replace(&mut self, text: Vec<u8>)
        ensures
            final(self)@ == text@,
    {
        self.bytes = text;
    }
}

} // verus!
