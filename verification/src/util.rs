use crate::smpp::SmppCommandStatus;
use vstd::prelude::*;
use vstd::utf8::encode_utf8;

verus! {

/// The value of the first four bytes of `b`, most significant byte first.
pub open spec fn be_u32(b: Seq<u8>) -> u32
    recommends
        b.len() >= 4,
{
    (b[0] as int * 0x100_0000 + b[1] as int * 0x1_0000 + b[2] as int * 0x100 + b[3] as int) as u32
}

/// The four bytes that stand for `v`, most significant byte first.
pub open spec fn u32_bytes(v: u32) -> Seq<u8> {
    seq![
        (v / 0x100_0000) as u8,
        (v / 0x1_0000 % 0x100) as u8,
        (v / 0x100 % 0x100) as u8,
        (v % 0x100) as u8,
    ]
}

/// How many bytes stand before the first zero byte of `b`; all of them if
/// `b` holds no zero byte.
pub open spec fn text_len(b: Seq<u8>) -> nat
    decreases b.len(),
{
    if b.len() == 0 || b[0] == 0 {
        0
    } else {
        1 + text_len(b.skip(1))
    }
}

/// Whether `b` holds a zero byte.
#[verifier::opaque]
pub open spec fn has_terminator(b: Seq<u8>) -> bool {
    text_len(b) < b.len()
}

/// The bytes before the first zero byte of `b`, each taken as the character
/// with that code.
#[verifier::opaque]
pub open spec fn text_of(b: Seq<u8>) -> Seq<char> {
    Seq::new(text_len(b), |i: int| b[i] as char)
}

/// What is left of `b` behind its first zero byte; nothing if `b` holds none.
#[verifier::opaque]
pub open spec fn after_text(b: Seq<u8>) -> Seq<u8> {
    if has_terminator(b) {
        b.skip(text_len(b) as int + 1)
    } else {
        Seq::empty()
    }
}

/// What is left of `b` behind its first `n` bytes; nothing if `b` is shorter.
#[verifier::opaque]
pub open spec fn after_bytes(b: Seq<u8>, n: nat) -> Seq<u8> {
    if n <= b.len() {
        b.skip(n as int)
    } else {
        Seq::empty()
    }
}

/// The bytes of a string on the wire: its UTF-8 encoding and a zero byte.
pub open spec fn cstring_bytes(s: Seq<char>) -> Seq<u8> {
    encode_utf8(s).push(0u8)
}

/// `text_len(b)` is the one index that has no zero byte before it and either
/// a zero byte at it or the end of `b`.
pub proof fn lemma_text_len(b: Seq<u8>)
    ensures
        text_len(b) <= b.len(),
        forall|i: int| 0 <= i < text_len(b) ==> b[i] != 0,
        text_len(b) < b.len() ==> b[text_len(b) as int] == 0,
    decreases b.len(),
{
    if b.len() == 0 || b[0] == 0 {
    } else {
        let t = b.skip(1);
        lemma_text_len(t);
        assert forall|i: int| 0 <= i < text_len(b) implies b[i] != 0 by {
            if i > 0 {
                assert(t[i - 1] == b[i]);
            }
        }
        if text_len(b) < b.len() {
            assert(t[text_len(t) as int] == b[text_len(b) as int]);
        }
    }
}

/// An index with no zero byte before it, and a zero byte or the end of `b`
/// at it, is `text_len(b)`.
pub proof fn lemma_text_len_is(b: Seq<u8>, n: int)
    requires
        0 <= n <= b.len(),
        forall|i: int| 0 <= i < n ==> b[i] != 0,
        n < b.len() ==> b[n] == 0,
    ensures
        text_len(b) == n,
{
    lemma_text_len(b);
    let m = text_len(b) as int;
    if m < n {
        assert(b[m] == 0);
    } else if n < m {
        assert(b[n] != 0);
    }
}

/// A cursor over a buffer of bytes. Its view is what is still to be read.
pub struct ByteStream<'a> {
    data: &'a [u8],
    pos: usize,
}

impl<'a> View for ByteStream<'a> {
    type V = Seq<u8>;

    closed spec fn view(&self) -> Seq<u8> {
        self.data@.skip(self.pos as int)
    }
}

impl<'a> ByteStream<'a> {
    #[verifier::type_invariant]
    spec fn inv(self) -> bool {
        self.pos <= self.data@.len()
    }

    /// A cursor at the start of `data`.
    pub fn new(data: &'a [u8]) -> (r: ByteStream<'a>)
        ensures
            r@ == data@,
    {
        ByteStream { data, pos: 0 }
    }

    /// How many bytes are still to be read.
    pub fn remaining(&self) -> (n: usize)
        ensures
            n == self@.len(),
    {
        proof {
            use_type_invariant(self);
        }
        self.data.len() - self.pos
    }

    /// Moves the cursor to the end of the buffer.
    fn drain(&mut self)
        ensures
            final(self)@.len() == 0,
    {
        proof {
            use_type_invariant(&*self);
        }
        self.pos = self.data.len();
    }

    /// Reads a string and tells whether its terminator was there.
    fn take_cstring(&mut self) -> (res: (String, bool))
        ensures
            res.0@ == text_of(old(self)@),
            res.1 == has_terminator(old(self)@),
            final(self)@ == after_text(old(self)@),
    {
        proof {
            use_type_invariant(&*self);
            reveal(has_terminator);
            reveal(text_of);
            reveal(after_text);
        }
        let ghost rest = self@;
        let start = self.pos;
        let mut s = String::new();
        let mut i: usize = start;
        while i < self.data.len() && self.data[i] != 0
            invariant
                start <= i <= self.data@.len(),
                start == self.pos,
                rest == self.data@.skip(start as int),
                forall|j: int| 0 <= j < i - start ==> rest[j] != 0,
                s@ == Seq::new((i - start) as nat, |j: int| rest[j] as char),
            decreases self.data@.len() - i,
        {
            string_push(&mut s, self.data[i] as char);
            i = i + 1;
        }
        proof {
            lemma_text_len_is(rest, i - start);
        }
        if i < self.data.len() {
            self.pos = i + 1;
            assert(self@ =~= after_text(rest));
            (s, true)
        } else {
            self.pos = i;
            assert(self@ =~= after_text(rest));
            (s, false)
        }
    }
}

/// `String::push`: the string afterwards is the string before with `c` added
/// at its end.
#[verifier::external_body]
fn string_push(s: &mut String, c: char)
    ensures
        final(s)@ == old(s)@.push(c),
{
    s.push(c)
}

/// Reads four bytes as one number, most significant byte first. Where fewer
/// than four bytes are left, they are consumed and the read fails.
pub fn read_u32(r: &mut ByteStream) -> (res: Result<u32, SmppCommandStatus>)
    ensures
        final(r)@ == after_bytes(old(r)@, 4),
        old(r)@.len() >= 4 ==> res == Ok::<u32, SmppCommandStatus>(be_u32(old(r)@)),
        old(r)@.len() < 4 ==> res == Err::<u32, SmppCommandStatus>(
            SmppCommandStatus::InvalidMessageLength,
        ),
{
    proof {
        use_type_invariant(&*r);
        reveal(after_bytes);
    }
    if r.data.len() - r.pos < 4 {
        r.drain();
        assert(r@ =~= Seq::<u8>::empty());
        return Err(SmppCommandStatus::InvalidMessageLength);
    }
    let ghost rest = r@;
    let b0: u32 = r.data[r.pos] as u32;
    let b1: u32 = r.data[r.pos + 1] as u32;
    let b2: u32 = r.data[r.pos + 2] as u32;
    let b3: u32 = r.data[r.pos + 3] as u32;
    r.pos = r.pos + 4;
    assert(r@ =~= rest.skip(4));
    Ok(b0 * 0x100_0000 + b1 * 0x1_0000 + b2 * 0x100 + b3)
}

/// Reads one byte. At the end of the stream the read fails.
pub fn read_u8(r: &mut ByteStream) -> (res: Result<u8, SmppCommandStatus>)
    ensures
        final(r)@ == after_bytes(old(r)@, 1),
        old(r)@.len() >= 1 ==> res == Ok::<u8, SmppCommandStatus>(old(r)@[0]),
        old(r)@.len() < 1 ==> res == Err::<u8, SmppCommandStatus>(
            SmppCommandStatus::InvalidMessageLength,
        ),
{
    proof {
        use_type_invariant(&*r);
        reveal(after_bytes);
    }
    if r.pos < r.data.len() {
        let ghost rest = r@;
        let b = r.data[r.pos];
        r.pos = r.pos + 1;
        assert(r@ =~= rest.skip(1));
        Ok(b)
    } else {
        assert(r@ =~= Seq::<u8>::empty());
        Err(SmppCommandStatus::InvalidMessageLength)
    }
}

/// Reads bytes up to and including the first zero byte and returns those
/// before it as text, one character for each byte. Never fails: where no zero
/// byte is left, all that is left is consumed and returned.
pub fn read_cstring(r: &mut ByteStream) -> (s: String)
    ensures
        s@ == text_of(old(r)@),
        final(r)@ == after_text(old(r)@),
{
    let (s, _) = r.take_cstring();
    s
}

/// Reads a string as `read_cstring` does, and fails where the stream ends
/// before the terminating zero byte.
pub fn read_terminated_cstring(r: &mut ByteStream) -> (res: Result<String, SmppCommandStatus>)
    ensures
        final(r)@ == after_text(old(r)@),
        has_terminator(old(r)@) ==> (res matches Ok(s) && s@ == text_of(old(r)@)),
        !has_terminator(old(r)@) ==> res == Err::<String, SmppCommandStatus>(
            SmppCommandStatus::InvalidMessageLength,
        ),
{
    let (s, terminated) = r.take_cstring();
    if terminated {
        Ok(s)
    } else {
        Err(SmppCommandStatus::InvalidMessageLength)
    }
}

/// Reads exactly `len` bytes. Where fewer are left, they are consumed and the
/// read fails.
pub fn read_exact(r: &mut ByteStream, len: usize) -> (res: Result<Vec<u8>, SmppCommandStatus>)
    ensures
        final(r)@ == after_bytes(old(r)@, len as nat),
        len <= old(r)@.len() ==> (res matches Ok(v) && v@ == old(r)@.take(len as int)),
        len > old(r)@.len() ==> res == Err::<Vec<u8>, SmppCommandStatus>(
            SmppCommandStatus::InvalidMessageLength,
        ),
{
    proof {
        use_type_invariant(&*r);
        reveal(after_bytes);
    }
    if r.data.len() - r.pos < len {
        r.drain();
        assert(r@ =~= Seq::<u8>::empty());
        return Err(SmppCommandStatus::InvalidMessageLength);
    }
    let ghost rest = r@;
    let start = r.pos;
    let mut v: Vec<u8> = Vec::with_capacity(len);
    let mut i: usize = 0;
    while i < len
        invariant
            i <= len,
            start == r.pos,
            start + len <= r.data@.len(),
            start + len <= usize::MAX,
            rest == r.data@.skip(start as int),
            v@ == rest.take(i as int),
        decreases len - i,
    {
        v.push(r.data[start + i]);
        i = i + 1;
        assert(v@ =~= rest.take(i as int));
    }
    r.pos = start + len;
    assert(r@ =~= rest.skip(len as int));
    Ok(v)
}

/// Appends the four bytes of `i`, most significant byte first, and returns how
/// many bytes were written.
pub fn write_u32(w: &mut Vec<u8>, i: u32) -> (n: usize)
    ensures
        final(w)@ == old(w)@ + u32_bytes(i),
        n == 4,
{
    w.push((i / 0x100_0000) as u8);
    w.push((i / 0x1_0000 % 0x100) as u8);
    w.push((i / 0x100 % 0x100) as u8);
    w.push((i % 0x100) as u8);
    assert(w@ =~= old(w)@ + u32_bytes(i));
    4
}

/// Appends `arr` as it is.
pub fn write_bytes(w: &mut Vec<u8>, arr: &[u8])
    ensures
        final(w)@ == old(w)@ + arr@,
{
    let mut i: usize = 0;
    while i < arr.len()
        invariant
            i <= arr@.len(),
            w@ == old(w)@ + arr@.take(i as int),
        decreases arr@.len() - i,
    {
        w.push(arr[i]);
        i = i + 1;
        assert(w@ =~= old(w)@ + arr@.take(i as int));
    }
    assert(arr@.take(i as int) =~= arr@);
}

/// Appends the bytes of `s` and a terminating zero byte.
pub fn write_cstring(w: &mut Vec<u8>, s: &str)
    ensures
        final(w)@ == old(w)@ + cstring_bytes(s@),
{
    write_bytes(w, s.as_bytes());
    w.push(0u8);
    assert(w@ =~= old(w)@ + cstring_bytes(s@));
}

/// Whether two strings hold the same text.
pub fn same_text(a: &str, b: &str) -> (res: bool)
    ensures
        res == (a@ == b@),
{
    let x = a.as_bytes();
    let y = b.as_bytes();
    if x.len() != y.len() {
        return false;
    }
    let mut i: usize = 0;
    while i < x.len()
        invariant
            i <= x@.len(),
            x@.len() == y@.len(),
            x@.take(i as int) == y@.take(i as int),
            x@ == encode_utf8(a@),
            y@ == encode_utf8(b@),
        decreases x@.len() - i,
    {
        if x[i] != y[i] {
            return false;
        }
        i = i + 1;
        assert(x@.take(i as int) =~= x@.take(i - 1).push(x@[i - 1]));
        assert(y@.take(i as int) =~= y@.take(i - 1).push(y@[i - 1]));
    }
    proof {
        assert(x@ =~= x@.take(i as int));
        assert(y@ =~= y@.take(i as int));
        vstd::utf8::encode_utf8_decode_utf8(a@);
        vstd::utf8::encode_utf8_decode_utf8(b@);
    }
    true
}

/// The decimal digits of `n`, most significant first; one digit for zero.
pub open spec fn decimal(n: nat) -> Seq<char>
    decreases n,
{
    if n < 10 {
        seq![(0x30 + n) as char]
    } else {
        decimal(n / 10).push((0x30 + n % 10) as char)
    }
}

/// Ten to the power `k`.
pub open spec fn ten_to(k: nat) -> nat
    decreases k,
{
    if k == 0 {
        1
    } else {
        10 * ten_to((k - 1) as nat)
    }
}

/// The decimal digits of a number are digits, and a number below ten to the
/// power `k` has at most `k` of them.
pub proof fn lemma_decimal(n: nat, k: nat)
    requires
        1 <= k,
        n < ten_to(k),
    ensures
        1 <= decimal(n).len() <= k,
        forall|i: int|
            0 <= i < decimal(n).len() ==> 0x30 <= #[trigger] decimal(n)[i] as int <= 0x39,
    decreases n,
{
    if n >= 10 {
        assert(ten_to(1) == 10) by {
            reveal_with_fuel(ten_to, 2);
        }
        lemma_decimal(n / 10, (k - 1) as nat);
    }
}

/// Appends the decimal digits of `n` to `s`.
fn push_decimal(s: &mut String, n: u32)
    ensures
        final(s)@ == old(s)@ + decimal(n as nat),
    decreases n,
{
    if n >= 10 {
        push_decimal(s, n / 10);
    }
    let d: u8 = (n % 10) as u8;
    string_push(s, (0x30u8 + d) as char);
    assert(s@ =~= old(s)@ + decimal(n as nat));
}

/// The number `n` written in decimal digits.
pub fn u32_to_string(n: u32) -> (s: String)
    ensures
        s@ == decimal(n as nat),
{
    let mut s = String::new();
    push_decimal(&mut s, n);
    assert(s@ =~= decimal(n as nat));
    s
}

/// A number is the sum of its four bytes, each at its place.
proof fn lemma_u32_split(v: u32)
    by (bit_vector)
    ensures
        v / 0x100_0000 < 0x100,
        v == (v / 0x100_0000) * 0x100_0000 + (v / 0x1_0000 % 0x100) * 0x1_0000 + (v / 0x100
            % 0x100) * 0x100 + v % 0x100,
{
}

/// Reading back the four bytes of a number gives the number.
pub proof fn lemma_be_u32_of_bytes(v: u32, tail: Seq<u8>)
    ensures
        be_u32(u32_bytes(v) + tail) == v,
        (u32_bytes(v) + tail).skip(4) == tail,
        (u32_bytes(v) + tail).len() == 4 + tail.len(),
{
    let b = u32_bytes(v) + tail;
    lemma_u32_split(v);
    assert(b[0] == (v / 0x100_0000) as u8);
    assert(b[1] == (v / 0x1_0000 % 0x100) as u8);
    assert(b[2] == (v / 0x100 % 0x100) as u8);
    assert(b[3] == (v % 0x100) as u8);
    assert(b.skip(4) =~= tail);
}

} // verus!
