//! Netstring framing of the worker link: `<decimal length>:<payload>,`.
use vstd::prelude::*;

verus! {

/// Largest payload a single frame may carry.
pub const MAX_PAYLOAD_LEN: usize = 4194304;

/// Byte that ends the length field.
pub const LENGTH_DELIMITER: u8 = 58;

/// Byte that ends every frame.
pub const FRAME_TERMINATOR: u8 = 44;

/// Why a byte stream is not a well-formed sequence of frames.
#[derive(Debug, Clone, Copy, PartialEq, Eq, Structural)]
pub enum FrameError {
    /// The length field is empty, holds a non-digit, has a leading zero or is not followed by `:`.
    BadLength,
    /// The declared length exceeds [`MAX_PAYLOAD_LEN`].
    TooLarge,
    /// The byte after the payload is not `,`.
    BadTerminator,
}

pub open spec fn is_digit(b: u8) -> bool {
    48 <= b && b <= 57
}

/// Decimal ASCII rendering of `n`, most significant digit first, without leading zeros.
pub open spec fn decimal(n: nat) -> Seq<u8>
    decreases n,
{
    if n < 10 {
        seq![(n + 48) as u8]
    } else {
        decimal(n / 10).push(((n % 10) + 48) as u8)
    }
}

/// Value of a run of ASCII digits.
pub open spec fn digits_value(s: Seq<u8>) -> nat
    decreases s.len(),
{
    if s.len() == 0 {
        0
    } else {
        digits_value(s.drop_last()) * 10 + (s.last() as int - 48) as nat
    }
}

/// Number of ASCII digits at the start of `b`.
pub open spec fn leading_digits(b: Seq<u8>) -> nat
    decreases b.len(),
{
    if b.len() == 0 || !is_digit(b[0]) {
        0
    } else {
        1 + leading_digits(b.drop_first())
    }
}

pub open spec fn pow10(n: nat) -> nat
    decreases n,
{
    if n == 0 {
        1
    } else {
        10 * pow10((n - 1) as nat)
    }
}

/// The complete frame that carries `p`.
pub open spec fn frame_bytes(p: Seq<u8>) -> Seq<u8> {
    decimal(p.len()) + seq![LENGTH_DELIMITER] + p + seq![FRAME_TERMINATOR]
}

/// The declared payload length of a stream that starts with a length field.
pub open spec fn declared_len(b: Seq<u8>) -> nat {
    digits_value(b.take(leading_digits(b) as int))
}

/// Index of the byte that must terminate the first frame of `b`.
pub open spec fn terminator_index(b: Seq<u8>) -> int {
    leading_digits(b) + 1 + declared_len(b) as int
}

/// The error, if any, that the first frame of the stream `b` already shows.
/// A stream that shows none is either a complete frame followed by more bytes, or the start of one.
pub open spec fn frame_error(b: Seq<u8>) -> Option<FrameError> {
    let d = leading_digits(b);
    if d >= 2 && b[0] == 48 {
        Some(FrameError::BadLength)
    } else if d > 7 {
        Some(FrameError::TooLarge)
    } else if d < b.len() && (b[d as int] != LENGTH_DELIMITER || d == 0) {
        Some(FrameError::BadLength)
    } else if declared_len(b) > MAX_PAYLOAD_LEN {
        Some(FrameError::TooLarge)
    } else if terminator_index(b) < b.len() && b[terminator_index(b)] != FRAME_TERMINATOR {
        Some(FrameError::BadTerminator)
    } else {
        None
    }
}

/// Whether `b` starts with a whole, well-formed frame.
pub open spec fn frame_complete(b: Seq<u8>) -> bool {
    frame_error(b).is_none() && leading_digits(b) < b.len() && terminator_index(b) < b.len()
}

/// The payload of the first frame of `b`.
pub open spec fn frame_payload(b: Seq<u8>) -> Seq<u8> {
    b.subrange(leading_digits(b) + 1 as int, terminator_index(b))
}

/// The number of bytes the first frame of `b` occupies.
pub open spec fn frame_len(b: Seq<u8>) -> nat {
    (terminator_index(b) + 1) as nat
}

proof fn lemma_leading_digits_exact(b: Seq<u8>, i: int)
    requires
        0 <= i <= b.len(),
        forall|j: int| 0 <= j < i ==> is_digit(#[trigger] b[j]),
        i == b.len() || !is_digit(b[i]),
    ensures
        leading_digits(b) == i,
    decreases i,
{
    if i > 0 {
        lemma_leading_digits_exact(b.drop_first(), i - 1);
    }
}

proof fn lemma_leading_digits_at_least(b: Seq<u8>, i: int)
    requires
        0 <= i <= b.len(),
        forall|j: int| 0 <= j < i ==> is_digit(#[trigger] b[j]),
    ensures
        leading_digits(b) >= i,
    decreases i,
{
    if i > 0 {
        lemma_leading_digits_at_least(b.drop_first(), i - 1);
    }
}

proof fn lemma_digits_value_step(b: Seq<u8>, j: int)
    requires
        0 <= j < b.len(),
    ensures
        digits_value(b.take(j + 1)) == digits_value(b.take(j)) * 10 + (b[j] as int - 48) as nat,
{
    assert(b.take(j + 1).drop_last() =~= b.take(j));
}

proof fn lemma_pow10_monotone(a: nat, b: nat)
    requires
        a <= b,
    ensures
        pow10(a) <= pow10(b),
    decreases b,
{
    if a < b {
        lemma_pow10_monotone(a, (b - 1) as nat);
    }
}

proof fn lemma_pow10_small()
    ensures
        pow10(6) == 1000000,
        pow10(7) == 10000000,
{
    assert(pow10(0) == 1);
    assert(pow10(1) == 10);
    assert(pow10(2) == 100);
    assert(pow10(3) == 1000);
    assert(pow10(4) == 10000);
    assert(pow10(5) == 100000);
    assert(pow10(6) == 1000000);
    assert(pow10(7) == 10000000);
}

proof fn lemma_decimal_digits(n: nat)
    ensures
        decimal(n).len() >= 1,
        forall|j: int| 0 <= j < decimal(n).len() ==> is_digit(#[trigger] decimal(n)[j]),
        decimal(n).len() == 1 || decimal(n)[0] != 48,
        n >= 10 ==> decimal(n).len() >= 2,
        digits_value(decimal(n)) == n,
    decreases n,
{
    if n >= 10 {
        let m = n / 10;
        lemma_decimal_digits(m);
        let s = decimal(m);
        assert(decimal(n).drop_last() =~= s);
        assert(decimal(n)[0] == s[0]);
        assert(m >= 1);
        if m < 10 {
            assert(s[0] == (m + 48) as u8);
        }
        assert(m * 10 + n % 10 == n) by (nonlinear_arith)
            requires
                m == n / 10,
        ;
        let x = ((n % 10) + 48) as u8;
        assert(x as int - 48 == n % 10);
        assert(decimal(n).last() == x);
        assert(digits_value(decimal(n)) == digits_value(s) * 10 + (x as int - 48) as nat);
    } else {
        let d = decimal(n);
        assert(d.drop_last().len() == 0);
        assert(digits_value(d.drop_last()) == 0);
        assert(d.last() == (n + 48) as u8);
    }
}

proof fn lemma_decimal_len(n: nat, k: nat)
    requires
        k >= 1,
        n < pow10(k),
    ensures
        decimal(n).len() <= k,
    decreases n,
{
    if n >= 10 {
        assert(k >= 2) by {
            if k == 1 {
                assert(pow10(1) == 10 * pow10(0));
            }
        };
        let p = pow10((k - 1) as nat);
        assert(pow10(k) == 10 * p);
        assert(n / 10 < p) by (nonlinear_arith)
            requires
                n < 10 * p,
        ;
        lemma_decimal_len(n / 10, (k - 1) as nat);
    }
}

/// Framing round trip: reading the stream that starts with the frame of `p` gives back `p`,
/// and the frame takes the digits of its length, the `:`, the payload and the `,`.
pub proof fn lemma_frame_round_trip(p: Seq<u8>, rest: Seq<u8>)
    requires
        p.len() <= MAX_PAYLOAD_LEN,
    ensures
        frame_error(frame_bytes(p) + rest).is_none(),
        frame_complete(frame_bytes(p) + rest),
        frame_payload(frame_bytes(p) + rest) == p,
        frame_len(frame_bytes(p) + rest) == decimal(p.len()).len() + 1 + p.len() + 1,
{
    let n = p.len();
    let d = decimal(n);
    let b = frame_bytes(p) + rest;
    lemma_decimal_digits(n);
    lemma_pow10_small();
    lemma_decimal_len(n, 7);
    assert forall|j: int| 0 <= j < d.len() implies is_digit(#[trigger] b[j]) by {
        assert(b[j] == d[j]);
    };
    assert(b[d.len() as int] == LENGTH_DELIMITER);
    lemma_leading_digits_exact(b, d.len() as int);
    assert(b.take(d.len() as int) =~= d);
    assert(declared_len(b) == n);
    assert(b[d.len() + 1 + n as int] == FRAME_TERMINATOR);
    assert(b[0] == d[0]);
    assert(frame_payload(b) =~= p);
}

/// Appends the decimal digits of `n` to `out`.
fn push_decimal(n: usize, out: &mut Vec<u8>)
    ensures
        final(out)@ == old(out)@ + decimal(n as nat),
    decreases n,
{
    if n < 10 {
        out.push((n as u8) + 48);
    } else {
        push_decimal(n / 10, out);
        out.push(((n % 10) as u8) + 48);
    }
}

/// Writes `payload` as one frame; a payload over [`MAX_PAYLOAD_LEN`] bytes is refused.
pub fn encode_frame(payload: &[u8]) -> (r: Result<Vec<u8>, FrameError>)
    ensures
        payload@.len() > MAX_PAYLOAD_LEN ==> r == Err::<Vec<u8>, FrameError>(FrameError::TooLarge),
        payload@.len() <= MAX_PAYLOAD_LEN ==> r is Ok && r->Ok_0@ == frame_bytes(payload@),
{
    if payload.len() > MAX_PAYLOAD_LEN {
        return Err(FrameError::TooLarge);
    }
    let mut out: Vec<u8> = Vec::new();
    push_decimal(payload.len(), &mut out);
    out.push(LENGTH_DELIMITER);
    let ghost head = out@;
    let mut i: usize = 0;
    while i < payload.len()
        invariant
            i <= payload@.len(),
            out@ == head + payload@.take(i as int),
        decreases payload@.len() - i,
    {
        out.push(payload[i]);
        i = i + 1;
        assert(payload@.take(i as int) =~= payload@.take(i - 1).push(payload@[i - 1]));
    }
    out.push(FRAME_TERMINATOR);
    assert(payload@.take(i as int) =~= payload@);
    assert(out@ =~= frame_bytes(payload@));
    Ok(out)
}

/// Reads the first frame of the stream `b`.
/// `Ok(Some((payload, used)))` when a whole frame is there, `Ok(None)` when more bytes are needed,
/// `Err` as soon as the bytes at hand cannot start a valid frame.
pub fn decode_frame(b: &[u8]) -> (r: Result<Option<(Vec<u8>, usize)>, FrameError>)
    ensures
        match r {
            Err(e) => frame_error(b@) == Some(e),
            Ok(None) => frame_error(b@).is_none() && !frame_complete(b@),
            Ok(Some((p, used))) => {
                &&& frame_complete(b@)
                &&& p@ == frame_payload(b@)
                &&& used == frame_len(b@)
            },
        },
{
    let mut i: usize = 0;
    while i < b.len() && i < 8 && 48 <= b[i] && b[i] <= 57
        invariant
            i <= b@.len(),
            i <= 8,
            forall|j: int| 0 <= j < i ==> is_digit(#[trigger] b@[j]),
        decreases 8 - i,
    {
        i = i + 1;
    }
    if i == 8 {
        proof {
            lemma_leading_digits_at_least(b@, 8);
        }
        if b[0] == 48 {
            return Err(FrameError::BadLength);
        }
        return Err(FrameError::TooLarge);
    }
    proof {
        lemma_leading_digits_exact(b@, i as int);
    }
    if i >= 2 && b[0] == 48 {
        return Err(FrameError::BadLength);
    }
    if i < b.len() && (b[i] != LENGTH_DELIMITER || i == 0) {
        return Err(FrameError::BadLength);
    }
    let mut len: usize = 0;
    let mut j: usize = 0;
    while j < i
        invariant
            i <= 7,
            j <= i,
            i <= b@.len(),
            forall|k: int| 0 <= k < i ==> is_digit(#[trigger] b@[k]),
            len == digits_value(b@.take(j as int)),
            len < pow10(j as nat),
        decreases i - j,
    {
        proof {
            lemma_digits_value_step(b@, j as int);
            lemma_pow10_monotone(j as nat, 6);
            lemma_pow10_small();
            assert(is_digit(b@[j as int]));
        }
        len = len * 10 + (b[j] - 48) as usize;
        j = j + 1;
    }
    assert(b@.take(leading_digits(b@) as int) == b@.take(i as int));
    if len > MAX_PAYLOAD_LEN {
        return Err(FrameError::TooLarge);
    }
    if i == b.len() {
        return Ok(None);
    }
    let end: usize = i + 1 + len;
    if end >= b.len() {
        return Ok(None);
    }
    if b[end] != FRAME_TERMINATOR {
        return Err(FrameError::BadTerminator);
    }
    let mut payload: Vec<u8> = Vec::new();
    let mut k: usize = i + 1;
    while k < end
        invariant
            i + 1 <= k <= end,
            end < b@.len(),
            payload@ == b@.subrange(i + 1, k as int),
        decreases end - k,
    {
        payload.push(b[k]);
        k = k + 1;
        assert(b@.subrange(i + 1, k as int) =~= b@.subrange(i + 1, k - 1).push(b@[k - 1]));
    }
    Ok(Some((payload, end + 1)))
}

/// Bytes read from a link and not yet taken as frames.
pub struct FrameReader {
    buf: Vec<u8>,
}

impl View for FrameReader {
    type V = Seq<u8>;

    closed spec fn view(&self) -> Seq<u8> {
        self.buf@
    }
}

/// Copies `b[from..]`.
fn tail(b: &Vec<u8>, from: usize) -> (r: Vec<u8>)
    requires
        from <= b@.len(),
    ensures
        r@ == b@.skip(from as int),
{
    let mut r: Vec<u8> = Vec::new();
    let mut k: usize = from;
    while k < b.len()
        invariant
            from <= k <= b@.len(),
            r@ == b@.subrange(from as int, k as int),
        decreases b@.len() - k,
    {
        r.push(b[k]);
        k = k + 1;
        assert(b@.subrange(from as int, k as int) =~= b@.subrange(from as int, k - 1).push(
            b@[k - 1],
        ));
    }
    assert(b@.subrange(from as int, k as int) =~= b@.skip(from as int));
    r
}

impl FrameReader {
    pub fn new() -> (r: FrameReader)
        ensures
            r@ == Seq::<u8>::empty(),
    {
        FrameReader { buf: Vec::new() }
    }

    /// Appends bytes read from the link.
    pub fn feed(&mut self, bytes: &[u8])
        ensures
            final(self)@ == old(self)@ + bytes@,
    {
        let ghost head = self.buf@;
        let mut i: usize = 0;
        while i < bytes.len()
            invariant
                i <= bytes@.len(),
                self.buf@ == head + bytes@.take(i as int),
            decreases bytes@.len() - i,
        {
            self.buf.push(bytes[i]);
            i = i + 1;
            assert(bytes@.take(i as int) =~= bytes@.take(i - 1).push(bytes@[i - 1]));
        }
        assert(bytes@.take(i as int) =~= bytes@);
    }

    /// Takes the next frame's payload once the whole frame is there. The bytes stay put while
    /// more are needed, and on a malformed frame, which ends the link.
    pub fn next_frame(&mut self) -> (r: Result<Option<Vec<u8>>, FrameError>)
        ensures
            match r {
                Err(e) => frame_error(old(self)@) == Some(e) && final(self)@ == old(self)@,
                Ok(None) => frame_error(old(self)@).is_none() && !frame_complete(old(self)@)
                    && final(self)@ == old(self)@,
                Ok(Some(p)) => {
                    &&& frame_complete(old(self)@)
                    &&& p@ == frame_payload(old(self)@)
                    &&& final(self)@ == old(self)@.skip(frame_len(old(self)@) as int)
                },
            },
    {
        match decode_frame(self.buf.as_slice()) {
            Err(e) => Err(e),
            Ok(None) => Ok(None),
            Ok(Some((payload, used))) => {
                self.buf = tail(&self.buf, used);
                Ok(Some(payload))
            },
        }
    }

    /// Takes a payload-channel unit: a message frame and the binary frame right after it,
    /// once both are whole. Nothing is taken while the second frame is incomplete.
    pub fn next_frame_pair(&mut self) -> (r: Result<Option<(Vec<u8>, Vec<u8>)>, FrameError>)
        ensures
            ({
                let b = old(self)@;
                let rest = b.skip(frame_len(b) as int);
                match r {
                    Err(e) => final(self)@ == b && (frame_error(b) == Some(e) || (frame_complete(b)
                        && frame_error(rest) == Some(e))),
                    Ok(None) => final(self)@ == b && frame_error(b).is_none() && (!frame_complete(b)
                        || (frame_error(rest).is_none() && !frame_complete(rest))),
                    Ok(Some((m, p))) => {
                        &&& frame_complete(b)
                        &&& frame_complete(rest)
                        &&& m@ == frame_payload(b)
                        &&& p@ == frame_payload(rest)
                        &&& final(self)@ == rest.skip(frame_len(rest) as int)
                    },
                }
            }),
    {
        match decode_frame(self.buf.as_slice()) {
            Err(e) => Err(e),
            Ok(None) => Ok(None),
            Ok(Some((message, used))) => {
                let rest = tail(&self.buf, used);
                match decode_frame(rest.as_slice()) {
                    Err(e) => Err(e),
                    Ok(None) => Ok(None),
                    Ok(Some((payload, used2))) => {
                        self.buf = tail(&rest, used2);
                        Ok(Some((message, payload)))
                    },
                }
            },
        }
    }
}

/// Writes a payload-channel unit: the frame of `message`, then the frame of `payload`.
pub fn encode_frame_pair(message: &[u8], payload: &[u8]) -> (r: Result<Vec<u8>, FrameError>)
    ensures
        message@.len() > MAX_PAYLOAD_LEN || payload@.len() > MAX_PAYLOAD_LEN ==> r == Err::<
            Vec<u8>,
            FrameError,
        >(FrameError::TooLarge),
        message@.len() <= MAX_PAYLOAD_LEN && payload@.len() <= MAX_PAYLOAD_LEN ==> r is Ok
            && r->Ok_0@ == frame_bytes(message@) + frame_bytes(payload@),
{
    let mut out = match encode_frame(message) {
        Err(e) => return Err(e),
        Ok(v) => v,
    };
    let second = match encode_frame(payload) {
        Err(e) => return Err(e),
        Ok(v) => v,
    };
    let ghost head = out@;
    let mut i: usize = 0;
    while i < second.len()
        invariant
            i <= second@.len(),
            out@ == head + second@.take(i as int),
        decreases second@.len() - i,
    {
        out.push(second[i]);
        i = i + 1;
        assert(second@.take(i as int) =~= second@.take(i - 1).push(second@[i - 1]));
    }
    assert(second@.take(i as int) =~= second@);
    Ok(out)
}

} // verus!
