//! The Windows clipboard side: UTF-16 text as the clipboard holds it (NUL-terminated,
//! little-endian in memory) and UTF-8 text as it crosses the pipe.
use vstd::prelude::*;
use crate::named_pipe::WinError;
use crate::report_text::{from_utf8_lossy, utf8_lossy};
use crate::pipe_talker::{queue_step, PipeTalker, WritePhase};
use vstd::utf8::encode_utf8;

verus! {

/// `char::from_u32`: the character of a Unicode scalar value, none for a surrogate or a
/// value past U+10FFFF.
pub assume_specification[ char::from_u32 ](i: u32) -> (r: Option<char>)
    ensures
        r == (if i < 0xD800 || (0xE000 <= i && i <= 0x10FFFF) {
            Some(i as char)
        } else {
            None::<char>
        }),
;

/// A buffer too small for the data.
pub const ERROR_BUFFER_OVERFLOW: u32 = 111;

/// A unit that is one half of a surrogate pair.
pub open spec fn is_surrogate(u: u16) -> bool {
    0xD800 <= u <= 0xDFFF
}

pub open spec fn is_high(u: u16) -> bool {
    0xD800 <= u <= 0xDBFF
}

pub open spec fn is_low(u: u16) -> bool {
    0xDC00 <= u <= 0xDFFF
}

/// The code point of a surrogate pair.
pub open spec fn pair_value(hi: u16, lo: u16) -> int {
    0x10000 + (hi - 0xD800) * 0x400 + (lo - 0xDC00)
}

/// UTF-16 decoding that puts U+FFFD in place of each unpaired surrogate
/// (`char::decode_utf16` with errors replaced).
pub open spec fn utf16_lossy(u: Seq<u16>) -> Seq<char>
    decreases u.len(),
{
    if u.len() == 0 {
        Seq::empty()
    } else if !is_surrogate(u[0]) {
        seq![u[0] as char] + utf16_lossy(u.skip(1))
    } else if is_high(u[0]) && u.len() >= 2 && is_low(u[1]) {
        seq![pair_value(u[0], u[1]) as char] + utf16_lossy(u.skip(2))
    } else {
        seq!['\u{FFFD}'] + utf16_lossy(u.skip(1))
    }
}

/// The units before the first NUL (all of them if there is none).
pub open spec fn until_nul(u: Seq<u16>) -> Seq<u16>
    decreases u.len(),
{
    if u.len() == 0 || u[0] == 0 {
        Seq::empty()
    } else {
        seq![u[0]] + until_nul(u.skip(1))
    }
}

/// The UTF-16 units of a character.
pub open spec fn utf16_of(c: char) -> Seq<u16> {
    if (c as u32) < 0x10000 {
        seq![(c as u32) as u16]
    } else {
        seq![
            (0xD800 + (c as u32 - 0x10000) / 0x400) as u16,
            (0xDC00 + (c as u32 - 0x10000) % 0x400) as u16,
        ]
    }
}

/// The UTF-16 encoding of a text (`str::encode_utf16`).
pub open spec fn utf16_encode(s: Seq<char>) -> Seq<u16>
    decreases s.len(),
{
    if s.len() == 0 {
        Seq::empty()
    } else {
        utf16_of(s[0]) + utf16_encode(s.skip(1))
    }
}

/// The bytes of UTF-16 units, each little-endian (the order of Windows machines).
pub open spec fn units_le_bytes(u: Seq<u16>) -> Seq<u8> {
    Seq::new(2 * u.len(), |i: int| if i % 2 == 0 {
        (u[i / 2] % 256) as u8
    } else {
        (u[i / 2] / 256) as u8
    })
}

/// The UTF-16 units of little-endian bytes; an odd last byte is dropped.
pub open spec fn le_units(b: Seq<u8>) -> Seq<u16> {
    Seq::new(b.len() / 2, |i: int| (b[2 * i] + 256 * b[2 * i + 1]) as u16)
}

proof fn lemma_encode_concat(a: Seq<char>, b: Seq<char>)
    ensures
        utf16_encode(a + b) == utf16_encode(a) + utf16_encode(b),
    decreases a.len(),
{
    if a.len() == 0 {
        assert(a + b =~= b);
        assert(utf16_encode(a) + utf16_encode(b) =~= utf16_encode(b));
    } else {
        assert((a + b).skip(1) =~= a.skip(1) + b);
        lemma_encode_concat(a.skip(1), b);
        assert((a + b)[0] == a[0]);
        assert(utf16_of(a[0]) + (utf16_encode(a.skip(1)) + utf16_encode(b)) =~= (utf16_of(a[0])
            + utf16_encode(a.skip(1))) + utf16_encode(b));
    }
}

proof fn lemma_char_round_trip(c: char, rest: Seq<u16>)
    ensures
        utf16_lossy(utf16_of(c) + rest) == seq![c] + utf16_lossy(rest),
{
    let u = utf16_of(c) + rest;
    let v = c as u32;
    if v < 0x10000 {
        assert(v < 0xD800 || v >= 0xE000);
        assert(u[0] == v as u16);
        assert(u.skip(1) =~= rest);
        assert((u[0] as char) == c);
    } else {
        let hi = (0xD800 + (v - 0x10000) / 0x400) as u16;
        let lo = (0xDC00 + (v - 0x10000) % 0x400) as u16;
        assert(v <= 0x10FFFF);
        assert(u[0] == hi && u[1] == lo);
        assert(is_high(hi) && is_low(lo));
        assert(pair_value(hi, lo) == v);
        assert(u.skip(2) =~= rest);
        assert((pair_value(hi, lo) as char) == c);
    }
}

/// Decoding the UTF-16 encoding of a text gives the text back.
pub proof fn lemma_utf16_round_trip(s: Seq<char>)
    ensures
        utf16_lossy(utf16_encode(s)) == s,
    decreases s.len(),
{
    if s.len() > 0 {
        lemma_utf16_round_trip(s.skip(1));
        lemma_char_round_trip(s[0], utf16_encode(s.skip(1)));
        assert(seq![s[0]] + s.skip(1) =~= s);
    }
}

/// Reading back the little-endian bytes of units gives the units.
pub proof fn lemma_le_units_round_trip(u: Seq<u16>)
    ensures
        le_units(units_le_bytes(u)) == u,
{
    let b = units_le_bytes(u);
    assert forall|i: int| 0 <= i < u.len() implies #[trigger] le_units(b)[i] == u[i] by {
        assert(b[2 * i] == (u[i] % 256) as u8);
        assert(b[2 * i + 1] == (u[i] / 256) as u8);
    }
    assert(le_units(b) =~= u);
}

/// The bytes of UTF-16 units as they lie in memory; refused when their count does not
/// fit in a `usize`.
pub fn as_u8_slice(input: &[u16]) -> (r: Result<Vec<u8>, WinError>)
    ensures
        match r {
            Ok(b) => 2 * input@.len() <= usize::MAX && b@ == units_le_bytes(input@),
            Err(e) => 2 * input@.len() > usize::MAX && e == WinError { code: ERROR_BUFFER_OVERFLOW },
        },
{
    let count = match input.len().checked_mul(2) {
        Some(c) => c,
        None => {
            return Err(WinError { code: ERROR_BUFFER_OVERFLOW });
        },
    };
    let mut out: Vec<u8> = Vec::new();
    let mut i: usize = 0;
    while i < input.len()
        invariant
            i <= input.len(),
            count == 2 * input@.len(),
            out@ == units_le_bytes(input@.take(i as int)),
        decreases input.len() - i,
    {
        let u = input[i];
        out.push((u % 256) as u8);
        out.push((u / 256) as u8);
        assert(out@ =~= units_le_bytes(input@.take(i + 1)));
        i = i + 1;
    }
    assert(input@.take(input.len() as int) =~= input@);
    Ok(out)
}

/// The UTF-16 units that bytes in memory hold; an odd last byte is dropped.
pub fn as_u16_box(input: &[u8]) -> (r: Vec<u16>)
    ensures
        r@ == le_units(input@),
{
    let count = input.len() / 2;
    let mut out: Vec<u16> = Vec::new();
    let mut i: usize = 0;
    while i < count
        invariant
            count == input.len() / 2,
            i <= count,
            out@ == le_units(input@).take(i as int),
        decreases count - i,
    {
        let u: u16 = input[2 * i] as u16 + 256 * (input[2 * i + 1] as u16);
        out.push(u);
        assert(out@ =~= le_units(input@).take(i + 1));
        i = i + 1;
    }
    assert(le_units(input@).take(count as int) =~= le_units(input@));
    out
}

/// The text of NUL-terminated UTF-16 units, unpaired surrogates replaced by U+FFFD.
pub fn wide_z_to_string(units: &[u16]) -> (r: String)
    ensures
        r@ == utf16_lossy(until_nul(units@)),
{
    let mut n: usize = 0;
    while n < units.len() && units[n] != 0
        invariant
            n <= units.len(),
            forall|k: int| 0 <= k < n ==> units@[k] != 0,
        decreases units.len() - n,
    {
        n = n + 1;
    }
    proof {
        lemma_until_nul(units@, n as int);
    }
    let mut out = String::new();
    let mut i: usize = 0;
    let ghost head = units@.take(n as int);
    assert(head.skip(0) =~= head);
    assert(out@ + utf16_lossy(head.skip(0)) =~= utf16_lossy(head));
    while i < n
        invariant
            n <= units.len(),
            i <= n,
            head == units@.take(n as int),
            out@ + utf16_lossy(head.skip(i as int)) == utf16_lossy(head),
        decreases n - i,
    {
        let u = units[i];
        let ghost rest = head.skip(i as int);
        assert(rest[0] == u);
        if u < 0xD800 || u > 0xDFFF {
            let c = match char::from_u32(u as u32) {
                Some(c) => c,
                None => '\u{FFFD}',
            };
            out.push(c);
            assert(rest.skip(1) =~= head.skip(i + 1));
            assert(out@ + utf16_lossy(head.skip(i + 1)) =~= utf16_lossy(head));
            i = i + 1;
        } else if u <= 0xDBFF && i + 1 < n && 0xDC00 <= units[i + 1] && units[i + 1] <= 0xDFFF {
            let lo = units[i + 1];
            assert(rest[1] == lo);
            let cp: u32 = 0x10000 + (u as u32 - 0xD800) * 0x400 + (lo as u32 - 0xDC00);
            let c = match char::from_u32(cp) {
                Some(c) => c,
                None => '\u{FFFD}',
            };
            out.push(c);
            assert(rest.skip(2) =~= head.skip(i + 2));
            assert(out@ + utf16_lossy(head.skip(i + 2)) =~= utf16_lossy(head));
            i = i + 2;
        } else {
            out.push('\u{FFFD}');
            assert(rest.skip(1) =~= head.skip(i + 1));
            assert(out@ + utf16_lossy(head.skip(i + 1)) =~= utf16_lossy(head));
            i = i + 1;
        }
    }
    assert(head.skip(n as int) =~= Seq::<u16>::empty());
    assert(out@ =~= utf16_lossy(head));
    out
}

proof fn lemma_until_nul(u: Seq<u16>, n: int)
    requires
        0 <= n <= u.len(),
        n == u.len() || u[n] == 0,
        forall|k: int| 0 <= k < n ==> u[k] != 0,
    ensures
        until_nul(u) == u.take(n),
    decreases n,
{
    if n == 0 {
        assert(u.take(0) =~= Seq::<u16>::empty());
    } else {
        lemma_until_nul(u.skip(1), n - 1);
        assert(seq![u[0]] + u.skip(1).take(n - 1) =~= u.take(n));
    }
}

/// The UTF-16 encoding of a text.
pub fn encode_utf16(s: &str) -> (r: Vec<u16>)
    ensures
        r@ == utf16_encode(s@),
{
    let mut out: Vec<u16> = Vec::new();
    assert(utf16_encode(s@.take(0)) =~= Seq::<u16>::empty()) by {
        assert(s@.take(0) =~= Seq::<char>::empty());
    }
    for c in it: s.chars()
        invariant
            it.seq() == s@,
            out@ == utf16_encode(it.seq().take(it.index() as int)),
    {
        let ghost k = it.index();
        let ghost before = out@;
        let v = c as u32;
        if v < 0x10000 {
            out.push(v as u16);
        } else {
            out.push((0xD800 + (v - 0x10000) / 0x400) as u16);
            out.push((0xDC00 + (v - 0x10000) % 0x400) as u16);
        }
        assert(out@ =~= before + utf16_of(c));
        proof {
            lemma_encode_concat(s@.take(k), seq![c]);
            assert(s@.take(k) + seq![c] =~= s@.take(k + 1));
            assert(seq![c].skip(1) =~= Seq::<char>::empty());
            assert(utf16_encode(Seq::<char>::empty()) == Seq::<u16>::empty());
            assert(utf16_encode(seq![c]) =~= utf16_of(c) + utf16_encode(Seq::<char>::empty()));
            assert(utf16_encode(seq![c]) =~= utf16_of(c));
        }
        assert(out@ =~= utf16_encode(s@.take(k + 1)));
    }
    assert(s@.take(s@.len() as int) =~= s@);
    out
}

/// A locked block of global memory: its contents, as the lock shows them.
pub struct GlobalLockGuard<T> {
    data: Vec<T>,
}

impl<T> GlobalLockGuard<T> {
    pub closed spec fn contents(&self) -> Seq<T> {
        self.data@
    }

    /// The guard of a block whose contents were read when it was locked.
    pub fn new(data: Vec<T>) -> (r: Self)
        ensures
            r.contents() == data@,
    {
        GlobalLockGuard { data }
    }

    /// The block's contents.
    pub fn get(&self) -> (r: &[T])
        ensures
            r@ == self.contents(),
    {
        self.data.as_slice()
    }

    /// The block's contents, to change.
    pub fn get_mut(&mut self) -> (r: &mut [T])
        ensures
            r@ == old(self).contents(),
            final(self).contents() == final(r)@,
    {
        self.data.as_mut_slice()
    }
}

/// The clipboard, once opened.
pub struct Clipboard;

impl Clipboard {
    /// The data of a format: the bytes of its locked block.
    pub fn get(&self, block: &GlobalLockGuard<u8>) -> (r: Vec<u8>)
        ensures
            r@ == block.contents(),
    {
        crate::named_pipe::slice_to_vec(block.get())
    }

    /// The text of the clipboard, as the NUL-terminated UTF-16 units of its locked block.
    pub fn get_wide_z(&self, block: &GlobalLockGuard<u8>) -> (r: Vec<u16>)
        ensures
            r@ == le_units(block.contents()),
    {
        as_u16_box(block.get())
    }

    /// The bytes of the block that sets NUL-terminated UTF-16 text on the clipboard.
    pub fn set_wide_z(&self, data_z: &[u16]) -> (r: Result<Vec<u8>, WinError>)
        ensures
            match r {
                Ok(b) => b@ == units_le_bytes(data_z@),
                Err(e) => 2 * data_z@.len() > usize::MAX && e == WinError {
                    code: ERROR_BUFFER_OVERFLOW,
                },
            },
    {
        as_u8_slice(data_z)
    }
}

/// The bytes sent over the pipe for clipboard text: the text up to its NUL, as UTF-8.
pub open spec fn clipboard_bytes(cb_text: Seq<u16>) -> Seq<u8> {
    encode_utf8(utf16_lossy(until_nul(cb_text)))
}

/// The clipboard agent of a user session.
pub struct App;

impl App {
    /// The clipboard text for a message from the pipe: the message read as UTF-8 (invalid
    /// sequences replaced), as UTF-16, and a NUL.
    pub fn on_pipe_msg(msg: &[u8]) -> (r: Vec<u16>)
        ensures
            r@ == utf16_encode(utf8_lossy(msg@)).push(0),
    {
        let text = from_utf8_lossy(msg);
        let mut units = encode_utf16(text.as_str());
        units.push(0);
        units
    }

    /// The message for the pipe when the clipboard changes: its text, up to the NUL, as
    /// UTF-8.
    pub fn clipboard_message(cb_text: &[u16]) -> (r: String)
        ensures
            r@ == utf16_lossy(until_nul(cb_text@)),
    {
        wide_z_to_string(cb_text)
    }

    /// The clipboard changed and holds the text `cb_text`: its message (the text up to the
    /// NUL, as UTF-8) is queued on the pipe to the clipboard service.  The result is that
    /// of `queue_write`: the bytes to write when no write was in progress (the caller asks
    /// the system to write them and hands the outcome to `begin_write`), nothing when a
    /// write is in progress (the message goes out after it), or the error.  While the
    /// write is in progress, `queue_write(None)` has nothing more to send.
    pub fn on_clipboard_update(client: &mut PipeTalker, cb_text: &[u16]) -> (r: Result<
        Option<Vec<u8>>,
        WinError,
    >)
        requires
            old(client).wf(),
            !(old(client).write_phase() is Error),
        ensures
            final(client).wf(),
            ({
                let b = match old(client).write_phase() {
                    WritePhase::Queued(b) => b,
                    WritePhase::Pending(b) => b,
                    WritePhase::Error => Seq::empty(),
                };
                match queue_step(
                    b,
                    Some(clipboard_bytes(cb_text@)),
                    old(client).max_message(),
                    old(client).max_queue(),
                ) {
                    Err(e) => r == Err::<Option<Vec<u8>>, WinError>(e)
                        && final(client).write_phase() == WritePhase::Error,
                    Ok(nb) => final(client).write_phase() == WritePhase::Pending(nb) && r is Ok
                        && match r->Ok_0 {
                        Some(w) => old(client).write_phase() is Queued && w@ == nb,
                        None => old(client).write_phase() is Pending,
                    },
                }
            }),
            final(client).pipe_spec() == old(client).pipe_spec(),
            final(client).read_phase() == old(client).read_phase(),
            final(client).connect_phase() == old(client).connect_phase(),
            final(client).max_message() == old(client).max_message(),
            final(client).max_queue() == old(client).max_queue(),
    {
        let text = wide_z_to_string(cb_text);
        let bytes = text.as_str().as_bytes();
        client.queue_write(Some(bytes))
    }
}

} // verus!
