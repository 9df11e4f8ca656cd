//! The text protocol that carries a computed point to its consumer.
//!
//! A frame is the decimal text of the two coordinates with one space between
//! them, nothing before and nothing after. The consumer reads into a buffer
//! of fixed size, so what it decodes is a frame followed by NUL padding.

use vstd::prelude::*;
use vstd::utf8::*;

verus! {

/// The size of the buffer that the consumer reads a frame into.
pub const FRAME_BUFFER_LEN: usize = 512;

/// What is stripped from both ends of a received text.
#[derive(Debug, Clone, Copy)]
pub enum Padding {
    /// The NUL character that fills the unused part of the buffer.
    Nul,
    /// Every character with the Unicode property White_Space.
    Whitespace,
}

/// The character has the Unicode property White_Space.
pub open spec fn is_whitespace(c: char) -> bool {
    let v = c as u32;
    ||| 0x09 <= v <= 0x0d
    ||| v == 0x20
    ||| v == 0x85
    ||| v == 0xa0
    ||| v == 0x1680
    ||| 0x2000 <= v <= 0x200a
    ||| v == 0x2028
    ||| v == 0x2029
    ||| v == 0x202f
    ||| v == 0x205f
    ||| v == 0x3000
}

impl Padding {
    /// The character belongs to this kind of padding.
    pub open spec fn covers(self, c: char) -> bool {
        match self {
            Padding::Nul => c == '\0',
            Padding::Whitespace => is_whitespace(c),
        }
    }

    /// Tells whether the character belongs to this kind of padding.
    pub fn has(&self, c: char) -> (r: bool)
        ensures
            r == self.covers(c),
    {
        match self {
            Padding::Nul => c == '\0',
            Padding::Whitespace => {
                let v: u32 = c as u32;
                (0x09 <= v && v <= 0x0d) || v == 0x20 || v == 0x85 || v == 0xa0 || v == 0x1680 || (
                0x2000 <= v && v <= 0x200a) || v == 0x2028 || v == 0x2029 || v == 0x202f || v
                    == 0x205f || v == 0x3000
            },
        }
    }
}

/// How many characters of padding the text starts with.
pub open spec fn leading(s: Seq<char>, pad: Padding) -> nat
    decreases s.len(),
{
    if s.len() > 0 && pad.covers(s[0]) {
        1 + leading(s.drop_first(), pad)
    } else {
        0
    }
}

/// How many characters of padding the text ends with.
pub open spec fn trailing(s: Seq<char>, pad: Padding) -> nat
    decreases s.len(),
{
    if s.len() > 0 && pad.covers(s.last()) {
        1 + trailing(s.drop_last(), pad)
    } else {
        0
    }
}

/// The text without the padding at its start.
pub open spec fn trim_start(s: Seq<char>, pad: Padding) -> Seq<char> {
    s.skip(leading(s, pad) as int)
}

/// The text without the padding at its end.
pub open spec fn trim_end(s: Seq<char>, pad: Padding) -> Seq<char> {
    s.take(s.len() - trailing(s, pad))
}

/// The text without the padding at either end.
pub open spec fn trim(s: Seq<char>, pad: Padding) -> Seq<char> {
    trim_end(trim_start(s, pad), pad)
}

/// What a received text carries: the text without its NUL padding and then
/// without the whitespace around the rest.
pub open spec fn payload(text: Seq<char>) -> Seq<char> {
    trim(trim(text, Padding::Nul), Padding::Whitespace)
}

/// How many spaces the text holds.
pub open spec fn space_count(s: Seq<char>) -> nat
    decreases s.len(),
{
    if s.len() == 0 {
        0
    } else {
        space_count(s.drop_last()) + if s.last() == ' ' {
            1nat
        } else {
            0nat
        }
    }
}

/// Where the first space stands, or the length of the text if it has none.
pub open spec fn first_space(s: Seq<char>) -> nat
    decreases s.len(),
{
    if s.len() == 0 || s[0] == ' ' {
        0
    } else {
        1 + first_space(s.drop_first())
    }
}

/// A frame that does not consist of exactly two tokens.
#[derive(Debug, Clone, Copy, PartialEq, Eq, Structural)]
pub struct MalformedFrame {
    /// How many tokens the frame holds.
    pub tokens: usize,
}

/// The two tokens of a received text, or the reason why it has none: the
/// payload is split at its spaces and must fall into exactly two parts.
pub open spec fn split_frame_spec(text: Seq<char>) -> Result<(Seq<char>, Seq<char>), MalformedFrame> {
    let p = payload(text);
    if space_count(p) == 1 {
        Ok((p.take(first_space(p) as int), p.skip(first_space(p) as int + 1)))
    } else {
        Err(MalformedFrame { tokens: (space_count(p) + 1) as usize })
    }
}

/// The text of a frame: both tokens with one space between them.
pub open spec fn frame_spec(x: Seq<char>, y: Seq<char>) -> Seq<char> {
    x + seq![' '] + y
}

/// The padding at the start ends at the first character that is none.
proof fn lemma_leading(s: Seq<char>, pad: Padding, k: int)
    requires
        0 <= k <= s.len(),
        forall|i: int| 0 <= i < k ==> pad.covers(#[trigger] s[i]),
        k == s.len() || !pad.covers(s[k]),
    ensures
        leading(s, pad) == k,
    decreases k,
{
    if k > 0 {
        let t = s.drop_first();
        assert forall|i: int| 0 <= i < k - 1 implies pad.covers(#[trigger] t[i]) by {
            assert(t[i] == s[i + 1]);
        }
        lemma_leading(t, pad, k - 1);
    }
}

/// The padding at the end starts behind the last character that is none.
proof fn lemma_trailing(s: Seq<char>, pad: Padding, k: int)
    requires
        0 <= k <= s.len(),
        forall|i: int| s.len() - k <= i < s.len() ==> pad.covers(#[trigger] s[i]),
        k == s.len() || !pad.covers(s[s.len() - k - 1]),
    ensures
        trailing(s, pad) == k,
    decreases k,
{
    if k > 0 {
        let t = s.drop_last();
        assert forall|i: int| t.len() - (k - 1) <= i < t.len() implies pad.covers(
            #[trigger] t[i],
        ) by {
            assert(t[i] == s[i]);
        }
        lemma_trailing(t, pad, k - 1);
    }
}

/// Narrows the range `lo..hi` of `chars` to what is left of it without the
/// padding at either end.
fn trim_range(chars: &Vec<char>, lo: usize, hi: usize, pad: Padding) -> (r: (usize, usize))
    requires
        lo <= hi <= chars@.len(),
    ensures
        lo <= r.0 <= r.1 <= hi,
        chars@.subrange(r.0 as int, r.1 as int) == trim(chars@.subrange(lo as int, hi as int), pad),
        r.0 < r.1 ==> !pad.covers(chars@[r.0 as int]) && !pad.covers(chars@[r.1 - 1]),
{
    let ghost whole = chars@.subrange(lo as int, hi as int);
    let mut a: usize = lo;
    while a < hi && pad.has(chars[a])
        invariant
            lo <= a <= hi <= chars@.len(),
            forall|i: int| lo <= i < a ==> pad.covers(#[trigger] chars@[i]),
        decreases hi - a,
    {
        a += 1;
    }
    let ghost rest = chars@.subrange(a as int, hi as int);
    proof {
        assert forall|i: int| 0 <= i < a - lo implies pad.covers(#[trigger] whole[i]) by {
            assert(whole[i] == chars@[lo + i]);
        }
        lemma_leading(whole, pad, a - lo);
        assert(trim_start(whole, pad) =~= rest);
    }
    let mut b: usize = hi;
    while a < b && pad.has(chars[b - 1])
        invariant
            a <= b <= hi <= chars@.len(),
            forall|i: int| b <= i < hi ==> pad.covers(#[trigger] chars@[i]),
        decreases b - a,
    {
        b -= 1;
    }
    proof {
        assert forall|i: int| rest.len() - (hi - b) <= i < rest.len() implies pad.covers(
            #[trigger] rest[i],
        ) by {
            assert(rest[i] == chars@[a + i]);
        }
        lemma_trailing(rest, pad, hi - b);
        assert(trim_end(rest, pad) =~= chars@.subrange(a as int, b as int));
    }
    (a, b)
}

/// The first space is the first character that is one.
proof fn lemma_first_space(s: Seq<char>, k: int)
    requires
        0 <= k <= s.len(),
        forall|i: int| 0 <= i < k ==> #[trigger] s[i] != ' ',
        k == s.len() || s[k] == ' ',
    ensures
        first_space(s) == k,
    decreases k,
{
    if k > 0 {
        let t = s.drop_first();
        assert forall|i: int| 0 <= i < k - 1 implies #[trigger] t[i] != ' ' by {
            assert(t[i] == s[i + 1]);
        }
        lemma_first_space(t, k - 1);
    }
}

/// The characters of a text, one by one.
fn chars_of(text: &str) -> (chars: Vec<char>)
    ensures
        chars@ == text@,
{
    let mut chars: Vec<char> = Vec::new();
    for c in it: text.chars()
        invariant
            chars@ == it.history(),
    {
        chars.push(c);
    }
    chars
}

/// Takes a received text apart: strips the NUL padding, then the whitespace
/// around the rest, and splits what is left at its spaces. Exactly two
/// tokens make a frame; any other number is reported with the number found.
pub fn split_frame(text: &str) -> (r: Result<(String, String), MalformedFrame>)
    ensures
        match r {
            Ok((x, y)) => split_frame_spec(text@) == Ok::<(Seq<char>, Seq<char>), MalformedFrame>(
                (x@, y@),
            ),
            Err(e) => split_frame_spec(text@) == Err::<(Seq<char>, Seq<char>), MalformedFrame>(e),
        },
{
    let chars = chars_of(text);
    let (a0, b0) = trim_range(&chars, 0, chars.len(), Padding::Nul);
    let (a, b) = trim_range(&chars, a0, b0, Padding::Whitespace);
    let ghost p = chars@.subrange(a as int, b as int);
    proof {
        assert(chars@.subrange(0, chars@.len() as int) =~= chars@);
        assert(p == payload(text@));
    }
    let mut spaces: usize = 0;
    let mut first: usize = b;
    let mut i: usize = a;
    while i < b
        invariant
            a <= i <= b <= chars@.len(),
            p == chars@.subrange(a as int, b as int),
            a < b ==> p[0] != ' ',
            spaces == space_count(p.take(i - a)),
            spaces <= i - a,
            i > a ==> spaces < i - a,
            spaces == 0 ==> first == b && forall|j: int| 0 <= j < i - a ==> #[trigger] p[j] != ' ',
            spaces > 0 ==> a <= first < i && p[first - a] == ' ' && forall|j: int|
                0 <= j < first - a ==> #[trigger] p[j] != ' ',
        decreases b - i,
    {
        proof {
            assert(p.take(i - a + 1).drop_last() =~= p.take(i - a));
            assert(p[i - a] == chars@[i as int]);
        }
        if chars[i] == ' ' {
            if spaces == 0 {
                first = i;
            }
            spaces += 1;
        }
        i += 1;
    }
    proof {
        assert(p.take(b - a) =~= p);
        if spaces == 0 {
            lemma_first_space(p, p.len() as int);
        } else {
            lemma_first_space(p, first - a);
        }
    }
    if spaces == 1 {
        let x = text.substring_char(a, first).to_owned();
        let y = text.substring_char(first + 1, b).to_owned();
        proof {
            assert(x@ =~= p.take(first_space(p) as int));
            assert(y@ =~= p.skip(first_space(p) as int + 1));
        }
        Ok((x, y))
    } else {
        Err(MalformedFrame { tokens: spaces + 1 })
    }
}

/// Puts two tokens into one frame.
pub fn frame(x: &str, y: &str) -> (text: String)
    ensures
        text@ == frame_spec(x@, y@),
{
    let mut text = x.to_owned();
    text.append(" ");
    text.append(y);
    proof {
        reveal_strlit(" ");
        assert(" "@ =~= seq![' ']);
    }
    text
}

/// What lossy decoding makes of bytes that are not valid UTF-8.
pub uninterp spec fn lossy_text(bytes: Seq<u8>) -> Seq<char>;

/// The text that a buffer is read as: its characters where the bytes are
/// valid UTF-8, and what lossy decoding makes of them where they are not.
pub open spec fn received_text(bytes: Seq<u8>) -> Seq<char> {
    if valid_utf8(bytes) {
        decode_utf8(bytes)
    } else {
        lossy_text(bytes)
    }
}

/// Calls `String::from_utf8_lossy`. Trusted: valid UTF-8 comes back as the
/// characters it encodes; of other bytes only that the same bytes give the
/// same text.
#[verifier::external_body]
fn utf8_lossy(bytes: &[u8]) -> (text: String)
    ensures
        valid_utf8(bytes@) ==> text@ == decode_utf8(bytes@),
        !valid_utf8(bytes@) ==> text@ == lossy_text(bytes@),
{
    String::from_utf8_lossy(bytes).into_owned()
}

/// Decodes what the consumer has read into its buffer: the bytes are read as
/// UTF-8, lossily, and the text is taken apart as `split_frame` does.
pub fn decode(buffer: &[u8]) -> (r: Result<(String, String), MalformedFrame>)
    ensures
        match r {
            Ok((x, y)) => split_frame_spec(received_text(buffer@)) == Ok::<
                (Seq<char>, Seq<char>),
                MalformedFrame,
            >((x@, y@)),
            Err(e) => split_frame_spec(received_text(buffer@)) == Err::<
                (Seq<char>, Seq<char>),
                MalformedFrame,
            >(e),
        },
{
    let text = utf8_lossy(buffer);
    split_frame(text.as_str())
}

/// A text that can stand on one side of a frame: it is not empty, holds no
/// space, and neither starts nor ends with NUL or whitespace.
pub open spec fn is_token(t: Seq<char>) -> bool {
    &&& t.len() > 0
    &&& forall|i: int| 0 <= i < t.len() ==> #[trigger] t[i] != ' '
    &&& !Padding::Nul.covers(t[0]) && !Padding::Whitespace.covers(t[0])
    &&& !Padding::Nul.covers(t.last()) && !Padding::Whitespace.covers(t.last())
}

/// The bytes that the consumer finds in its buffer after one frame was
/// written to it: the frame's text in UTF-8, then NUL up to the buffer's end.
pub open spec fn padded_frame(x: Seq<char>, y: Seq<char>, padding: nat) -> Seq<u8> {
    encode_utf8(frame_spec(x, y)) + Seq::new(padding, |i: int| 0u8)
}

/// The spaces of a text are those of its two parts.
proof fn lemma_space_count_add(a: Seq<char>, b: Seq<char>)
    ensures
        space_count(a + b) == space_count(a) + space_count(b),
    decreases b.len(),
{
    if b.len() == 0 {
        assert(a + b =~= a);
    } else {
        assert((a + b).drop_last() =~= a + b.drop_last());
        lemma_space_count_add(a, b.drop_last());
    }
}

/// A text without a space counts none.
proof fn lemma_space_count_none(a: Seq<char>)
    requires
        forall|i: int| 0 <= i < a.len() ==> #[trigger] a[i] != ' ',
    ensures
        space_count(a) == 0,
    decreases a.len(),
{
    if a.len() > 0 {
        lemma_space_count_none(a.drop_last());
    }
}

/// The encoding of a text is the encoding of its parts, one after the other.
proof fn lemma_encode_add(a: Seq<char>, b: Seq<char>)
    ensures
        encode_utf8(a + b) == encode_utf8(a) + encode_utf8(b),
    decreases a.len(),
{
    if a.len() == 0 {
        assert(a + b =~= b);
        assert(encode_utf8(a) + encode_utf8(b) =~= encode_utf8(b));
    } else {
        assert((a + b).drop_first() =~= a.drop_first() + b);
        lemma_encode_add(a.drop_first(), b);
        assert(encode_utf8(a + b) =~= encode_utf8(a) + encode_utf8(b));
    }
}

/// A frame in the consumer's buffer reads as the frame's text and then NUL.
proof fn lemma_padded_frame_text(x: Seq<char>, y: Seq<char>, padding: nat)
    ensures
        valid_utf8(padded_frame(x, y, padding)),
        decode_utf8(padded_frame(x, y, padding)) == frame_spec(x, y) + Seq::new(
            padding,
            |i: int| '\0',
        ),
{
    let nuls = Seq::new(padding, |i: int| '\0');
    let zeros = Seq::new(padding, |i: int| 0u8);
    assert(is_ascii_chars(nuls));
    is_ascii_chars_encode_utf8(nuls);
    assert(encode_utf8(nuls) =~= zeros) by {
        assert forall|i: int| 0 <= i < padding implies encode_utf8(nuls)[i] == zeros[i] by {
            assert(nuls[i] as u8 == encode_utf8(nuls)[i]);
        }
    }
    lemma_encode_add(frame_spec(x, y), nuls);
    encode_utf8_valid_utf8(frame_spec(x, y) + nuls);
    encode_utf8_decode_utf8(frame_spec(x, y) + nuls);
}

/// Framing two tokens and decoding what arrives gives the two tokens back,
/// whatever the amount of NUL that follows the frame in the buffer.
pub proof fn lemma_frame_round_trip(x: Seq<char>, y: Seq<char>, padding: nat)
    requires
        is_token(x),
        is_token(y),
    ensures
        split_frame_spec(received_text(padded_frame(x, y, padding))) == Ok::<
            (Seq<char>, Seq<char>),
            MalformedFrame,
        >((x, y)),
{
    let f = frame_spec(x, y);
    let nuls = Seq::new(padding, |i: int| '\0');
    let text = f + nuls;
    lemma_padded_frame_text(x, y, padding);
    assert(received_text(padded_frame(x, y, padding)) == text);
    assert(f.len() == x.len() + 1 + y.len());
    assert(f[0] == x[0]);
    assert(f.last() == y.last());
    assert(text[0] == x[0]);
    // the NUL padding goes, and nothing else
    lemma_leading(text, Padding::Nul, 0);
    assert(trim_start(text, Padding::Nul) =~= text);
    assert(text[text.len() - padding - 1] == f.last());
    lemma_trailing(text, Padding::Nul, padding as int);
    assert(trim_end(text, Padding::Nul) =~= f);
    // no whitespace stands around the frame
    lemma_leading(f, Padding::Whitespace, 0);
    assert(trim_start(f, Padding::Whitespace) =~= f);
    lemma_trailing(f, Padding::Whitespace, 0);
    assert(trim_end(f, Padding::Whitespace) =~= f);
    assert(payload(text) == f);
    // the one space is the one between the tokens
    lemma_space_count_none(x);
    lemma_space_count_none(y);
    lemma_space_count_add(x, seq![' ']);
    lemma_space_count_add(x + seq![' '], y);
    assert(seq![' '].drop_last() =~= Seq::<char>::empty());
    assert(space_count(seq![' ']) == 1) by {
        reveal_with_fuel(space_count, 2);
    }
    lemma_first_space(f, x.len() as int);
    assert(f.take(x.len() as int) =~= x);
    assert(f.skip(x.len() as int + 1) =~= y);
}

} // verus!
