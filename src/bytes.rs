use vstd::prelude::*;

verus! {

/// Whether `v` is a Unicode scalar value, the range of `char`.
pub open spec fn is_scalar(v: nat) -> bool {
    v < 0xD800 || (0xE000 <= v && v <= 0x10FFFF)
}

/// Relies on `char::from_u32`: a character exactly for the scalar values.
#[verifier::external_body]
fn char_from(v: u32) -> (r: Option<char>)
    ensures
        r is Some <==> is_scalar(v as nat),
        r matches Some(c) ==> c as nat == v as nat,
{
    char::from_u32(v)
}

/// The bytes of `s` read as one big-endian number.
pub open spec fn be_value(s: Seq<u8>) -> nat
    decreases s.len(),
{
    if s.len() == 0 {
        0
    } else {
        be_value(s.drop_last()) * 256 + s.last() as nat
    }
}

/// 256 to the power `n`.
pub open spec fn pow256(n: nat) -> nat
    decreases n,
{
    if n == 0 {
        1
    } else {
        pow256((n - 1) as nat) * 256
    }
}

proof fn lemma_be_value_bound(s: Seq<u8>)
    ensures
        be_value(s) < pow256(s.len()),
    decreases s.len(),
{
    if s.len() > 0 {
        lemma_be_value_bound(s.drop_last());
        let a = be_value(s.drop_last());
        let p = pow256(s.drop_last().len());
        let l = s.last() as nat;
        assert(a * 256 + l < p * 256) by (nonlinear_arith)
            requires
                a < p,
                l < 256,
        ;
    }
}

/// Whether `b` starts a character in UTF-8: an ASCII byte or a lead byte, not
/// a continuation byte.
pub fn is_char_boundary(b: u8) -> (r: bool)
    ensures
        r == (b < 128 || b >= 192),
{
    b < 128 || b >= 192
}

/// Up to four bytes of one character, as they come in.
#[derive(Debug, Clone, Copy)]
pub enum ByteBuf {
    A([u8; 1]),
    B([u8; 2]),
    C([u8; 3]),
    D([u8; 4]),
    E,
}

impl Default for ByteBuf {
    fn default() -> (r: ByteBuf)
        ensures
            r is E,
    {
        ByteBuf::E
    }
}

/// The number a short run of bytes reads as, big-endian.
fn value_of(b: &[u8]) -> (r: u32)
    requires
        b@.len() <= 4,
    ensures
        r as nat == be_value(b@),
{
    let mut acc: u32 = 0;
    let mut i: usize = 0;
    while i < b.len()
        invariant
            i <= b@.len() <= 4,
            acc as nat == be_value(b@.take(i as int)),
        decreases b@.len() - i,
    {
        proof {
            lemma_be_value_bound(b@.take(i as int));
            assert(pow256(0) == 1);
            assert(pow256(1) == 256);
            assert(pow256(2) == 65536);
            assert(pow256(3) == 16777216);
            assert(acc < 16777216);
            assert(b@.take(i + 1).drop_last() =~= b@.take(i as int));
        }
        acc = acc * 256 + b[i] as u32;
        i = i + 1;
    }
    assert(b@.take(b@.len() as int) =~= b@);
    acc
}

/// What a byte stream offers next.
pub enum StreamInput {
    /// The next byte.
    Byte(u8),
    /// Reading failed.
    Failed,
    /// The stream ended.
    End,
}

/// What one decoding step yields.
#[derive(PartialEq, Eq, Structural, Clone, Copy, Debug)]
pub enum StreamStep {
    /// Decoding is over.
    Done,
    /// A whole character.
    Char(char),
    /// A byte was taken in; no character is complete yet.
    Pending,
    /// The bytes make no character.
    Invalid,
}

/// `s` is what flushing the bytes `b` yields: their character, or `Invalid`.
pub open spec fn flushes(s: StreamStep, b: Seq<u8>) -> bool {
    if is_scalar(be_value(b)) {
        s is Char && s->Char_0 as nat == be_value(b)
    } else {
        s == StreamStep::Invalid
    }
}

impl ByteBuf {
    /// One step of decoding a byte stream into characters, from the buffered
    /// bytes and what the stream offers next. The end of the stream ends
    /// decoding. A read failure flushes what is buffered, or ends decoding
    /// when nothing is. A byte that starts a character flushes a non-empty
    /// buffer and is kept as the new buffer; any other byte is added to the
    /// buffer, and is refused as `Invalid` when the buffer is full.
    pub fn step(self, input: StreamInput) -> (r: (ByteBuf, StreamStep))
        ensures
            input is End ==> r.0 == self && r.1 == StreamStep::Done,
            input is Failed && self.bytes().len() == 0 ==> r.0 == self && r.1 == StreamStep::Done,
            input is Failed && self.bytes().len() > 0 ==> r.0 is E && flushes(r.1, self.bytes()),
            input matches StreamInput::Byte(b) ==> {
                if self.bytes().len() > 0 && (b < 128 || b >= 192) {
                    r.0.bytes() == seq![b] && flushes(r.1, self.bytes())
                } else if self.bytes().len() == 4 {
                    r.0 == self && r.1 == StreamStep::Invalid
                } else {
                    r.0.bytes() == self.bytes().push(b) && r.1 == StreamStep::Pending
                }
            },
    {
        match input {
            StreamInput::End => (self, StreamStep::Done),
            StreamInput::Failed => {
                if self.is_empty() {
                    (self, StreamStep::Done)
                } else {
                    (ByteBuf::E, self.flush())
                }
            },
            StreamInput::Byte(b) => {
                if !self.is_empty() && is_char_boundary(b) {
                    let out = self.flush();
                    let next = ByteBuf::A([b]);
                    assert(next.bytes() =~= seq![b]);
                    (next, out)
                } else {
                    match self.add(b) {
                        Some(next) => (next, StreamStep::Pending),
                        None => (self, StreamStep::Invalid),
                    }
                }
            },
        }
    }

    /// The character of the buffered bytes, or `Invalid`.
    fn flush(self) -> (r: StreamStep)
        requires
            self.bytes().len() > 0,
        ensures
            flushes(r, self.bytes()),
    {
        match self.to_char() {
            Some(c) => StreamStep::Char(c),
            None => StreamStep::Invalid,
        }
    }

    /// The bytes held, oldest first.
    pub open spec fn bytes(self) -> Seq<u8> {
        match self {
            ByteBuf::A(b) => b@,
            ByteBuf::B(b) => b@,
            ByteBuf::C(b) => b@,
            ByteBuf::D(b) => b@,
            ByteBuf::E => Seq::empty(),
        }
    }

    /// The buffer with `n` added; nothing when it already holds four bytes.
    pub fn add(self, n: u8) -> (r: Option<ByteBuf>)
        ensures
            r is None <==> self.bytes().len() == 4,
            r matches Some(b) ==> b.bytes() == self.bytes().push(n),
    {
        let r = match self {
            ByteBuf::E => ByteBuf::A([n]),
            ByteBuf::A(b) => ByteBuf::B([b[0], n]),
            ByteBuf::B(b) => ByteBuf::C([b[0], b[1], n]),
            ByteBuf::C(b) => ByteBuf::D([b[0], b[1], b[2], n]),
            ByteBuf::D(_) => return None,
        };
        assert(r.bytes() =~= self.bytes().push(n));
        Some(r)
    }

    /// The character whose scalar value the held bytes make when read as one
    /// big-endian number; nothing when the buffer is empty or that number is
    /// not a scalar value.
    pub fn to_char(self) -> (r: Option<char>)
        ensures
            r is Some <==> self.bytes().len() > 0 && is_scalar(be_value(self.bytes())),
            r matches Some(c) ==> c as nat == be_value(self.bytes()),
    {
        let v = match self {
            ByteBuf::A(b) => value_of(b.as_slice()),
            ByteBuf::B(b) => value_of(b.as_slice()),
            ByteBuf::C(b) => value_of(b.as_slice()),
            ByteBuf::D(b) => value_of(b.as_slice()),
            ByteBuf::E => return None,
        };
        char_from(v)
    }

    /// Whether the buffer holds no byte.
    pub fn is_empty(&self) -> (r: bool)
        ensures
            r == (self.bytes().len() == 0),
    {
        match self {
            ByteBuf::E => true,
            _ => false,
        }
    }
}

} // verus!
