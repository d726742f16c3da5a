//! Frames: a command and its payload as one escape sequence, or as a run of
//! chunks that the terminal puts together again.

use crate::command::{
    control_data, control_fields, field, join, lemma_join_push, Command, CommandBuilder,
};
use crate::decimal::decimal;
use crate::encoding::{base64_len, base64_standard, encodable_len, encode_standard};
use crate::error::Error;
use crate::text::{ascii_string, is_ascii_bytes, text_of};
use crate::types::{Action, ImageFormat};
use crate::{ESC, MAX_CHUNK_SIZE};
use vstd::prelude::*;
use vstd::utf8::encode_utf8;

verus! {

/// The two bytes that open a frame.
pub open spec fn apc_start() -> Seq<u8> {
    seq![ESC, '_' as u8]
}

/// The two bytes that close a frame.
pub open spec fn apc_end() -> Seq<u8> {
    seq![ESC, '\\' as u8]
}

/// A frame: the opening bytes, the letter `G`, the control data, a
/// semicolon, the payload and the closing bytes.
pub open spec fn frame(control: Seq<u8>, payload: Seq<u8>) -> Seq<u8> {
    apc_start() + seq!['G' as u8] + control + seq![';' as u8] + payload + apc_end()
}

/// Appends the bytes of `src` from `from` up to `to`.
fn append_bytes(out: &mut Vec<u8>, src: &[u8], from: usize, to: usize)
    requires
        from <= to <= src@.len(),
    ensures
        final(out)@ == old(out)@ + src@.subrange(from as int, to as int),
{
    let mut i: usize = from;
    while i < to
        invariant
            from <= i <= to <= src@.len(),
            out@ == old(out)@ + src@.subrange(from as int, i as int),
        decreases to - i,
    {
        out.push(src[i]);
        i = i + 1;
        assert(out@ =~= old(out)@ + src@.subrange(from as int, i as int));
    }
}

/// The frame of `control` and `payload`.
fn build_frame(control: &[u8], payload: &[u8]) -> (out: Vec<u8>)
    ensures
        out@ == frame(control@, payload@),
        is_ascii_bytes(control@) && is_ascii_bytes(payload@) ==> is_ascii_bytes(out@),
{
    let mut out: Vec<u8> = Vec::new();
    out.push(ESC);
    out.push('_' as u8);
    out.push('G' as u8);
    append_bytes(&mut out, control, 0, control.len());
    out.push(';' as u8);
    append_bytes(&mut out, payload, 0, payload.len());
    out.push(ESC);
    out.push('\\' as u8);
    assert(control@.subrange(0, control@.len() as int) =~= control@);
    assert(payload@.subrange(0, payload@.len() as int) =~= payload@);
    assert(out@ =~= frame(control@, payload@));
    out
}

impl Command {
    /// The command and its payload as one escape sequence, as text. The
    /// payload travels as base64.
    pub fn serialize(&self, data: &[u8]) -> (r: Result<String, Error>)
        requires
            encodable_len(data@.len()),
        ensures
            r matches Ok(s) && s@ == text_of(
                frame(control_data(self.fields()), base64_standard(data@)),
            ),
    {
        let control = self.control_bytes();
        let encoded = encode_standard(data);
        let bytes = build_frame(control.as_slice(), encoded.as_slice());
        match ascii_string(bytes) {
            Ok(s) => Ok(s),
            Err(e) => Err(Error::Utf8(e)),
        }
    }

    /// The command and its payload as one escape sequence, as bytes.
    pub fn serialize_bytes(&self, data: &[u8]) -> (r: Result<Vec<u8>, Error>)
        requires
            encodable_len(data@.len()),
        ensures
            r matches Ok(v) && v@ == frame(control_data(self.fields()), base64_standard(data@)),
    {
        let control = self.control_bytes();
        let encoded = encode_standard(data);
        Ok(build_frame(control.as_slice(), encoded.as_slice()))
    }

    /// The command as one escape sequence whose payload is the path, as
    /// base64. Without a path there is nothing to send.
    pub fn serialize_with_path(&self) -> (r: Result<String, Error>)
        requires
            self.fields().path matches Some(p) ==> encodable_len(encode_utf8(p@).len()),
        ensures
            match self.fields().path {
                Some(p) => r matches Ok(s) && s@ == text_of(
                    frame(control_data(self.fields()), base64_standard(encode_utf8(p@))),
                ),
                None => r matches Err(Error::MissingField(f)) && f@ == "path"@,
            },
    {
        let control = self.control_bytes();
        match self.path_bytes() {
            None => Err(Error::MissingField("path")),
            Some(path) => {
                let encoded = encode_standard(path);
                let bytes = build_frame(control.as_slice(), encoded.as_slice());
                match ascii_string(bytes) {
                    Ok(s) => Ok(s),
                    Err(e) => Err(Error::Utf8(e)),
                }
            },
        }
    }
}

/// The number of base64 characters in every chunk but the last. It is a
/// multiple of four, so that no chunk breaks a group of base64 characters.
pub const CHUNK_SIZE: usize = MAX_CHUNK_SIZE / 4 * 4;

/// The number of chunks that a payload of `n` base64 characters is sent in:
/// `n` divided by the chunk size, rounded up.
pub open spec fn chunk_count(n: nat) -> nat {
    ((n + CHUNK_SIZE - 1) / (CHUNK_SIZE as int)) as nat
}

/// Where chunk `k` of a payload of `n` characters ends.
pub open spec fn chunk_end(n: nat, k: nat) -> nat {
    if (k + 1) * CHUNK_SIZE < n {
        ((k + 1) * CHUNK_SIZE) as nat
    } else {
        n
    }
}

/// The part of the payload that chunk `k` carries.
pub open spec fn chunk_payload(encoded: Seq<u8>, k: nat) -> Seq<u8> {
    encoded.subrange((k * CHUNK_SIZE) as int, chunk_end(encoded.len(), k) as int)
}

/// Whether chunk `k` is the last chunk of a payload of `n` characters.
pub open spec fn is_last_chunk(n: nat, k: nat) -> bool {
    (k + 1) * CHUNK_SIZE >= n
}

/// What goes before the semicolon in chunk `k`: in the first chunk the whole
/// control data and a comma; then in every chunk `m=1`, or `m=0` in the last.
pub open spec fn chunk_control(control: Seq<u8>, n: nat, k: nat) -> Seq<u8> {
    (if k == 0 {
        control + seq![',' as u8]
    } else {
        Seq::<u8>::empty()
    }) + seq!['m' as u8, '=' as u8, if is_last_chunk(n, k) { '0' as u8 } else { '1' as u8 }]
}

/// The frame of chunk `k`, for `k` below the number of chunks.
pub open spec fn chunk_frame(control: Seq<u8>, encoded: Seq<u8>, k: nat) -> Seq<u8> {
    frame(chunk_control(control, encoded.len(), k), chunk_payload(encoded, k))
}

/// A payload on its way to the terminal in chunks. Each call of `next` hands
/// out one more chunk until none is left; nothing starts it over.
pub struct ChunkedSerializer {
    control: Vec<u8>,
    encoded: Vec<u8>,
    chunk_size: usize,
    offset: usize,
    is_first: bool,
}

impl ChunkedSerializer {
    /// The control data of the command.
    pub closed spec fn control(&self) -> Seq<u8> {
        self.control@
    }

    /// The whole payload, as base64.
    pub closed spec fn encoded(&self) -> Seq<u8> {
        self.encoded@
    }

    /// The number of chunks handed out so far.
    pub closed spec fn produced(&self) -> nat {
        chunk_count(self.offset as nat)
    }

    /// What holds of every serializer: it stands at the end of the payload
    /// or between two chunks, it knows whether it has handed out a chunk,
    /// and what it sends is ASCII.
    pub closed spec fn wf(&self) -> bool {
        &&& self.chunk_size == CHUNK_SIZE
        &&& self.offset <= self.encoded@.len()
        &&& (self.offset == self.encoded@.len() || self.offset % CHUNK_SIZE == 0)
        &&& self.is_first == (self.offset == 0)
        &&& is_ascii_bytes(self.control@)
        &&& is_ascii_bytes(self.encoded@)
    }

    /// A well-formed serializer has handed out no more chunks than there are.
    pub proof fn lemma_produced_bound(&self)
        requires
            self.wf(),
        ensures
            self.produced() <= chunk_count(self.encoded().len()),
    {
        assert(CHUNK_SIZE == 4096);
    }

    /// The number of chunks, those handed out and those to come.
    pub fn total_chunks(&self) -> (n: usize)
        requires
            self.wf(),
        ensures
            n == chunk_count(self.encoded().len()),
    {
        assert(CHUNK_SIZE == 4096);
        let len = self.encoded.len();
        if len % self.chunk_size == 0 {
            len / self.chunk_size
        } else {
            len / self.chunk_size + 1
        }
    }

    /// Whether a chunk is left.
    pub fn has_more(&self) -> (more: bool)
        requires
            self.wf(),
        ensures
            more == (self.produced() < chunk_count(self.encoded().len())),
    {
        proof {
            assert(CHUNK_SIZE == 4096);
            let at = self.offset as int;
            let len = self.encoded@.len() as int;
            if at < len {
                assert(at % 4096 == 0);
                assert((at + 4095) / 4096 == at / 4096);
                assert((len + 4095) / 4096 > at / 4096);
            }
        }
        self.offset < self.encoded.len()
    }

    /// The next chunk as an escape sequence, or nothing once all chunks
    /// have been handed out.
    pub fn next(&mut self) -> (r: Option<String>)
        requires
            old(self).wf(),
        ensures
            final(self).wf(),
            final(self).control() == old(self).control(),
            final(self).encoded() == old(self).encoded(),
            old(self).produced() < chunk_count(old(self).encoded().len()) ==> {
                &&& r matches Some(s)
                &&& s@ == text_of(
                    chunk_frame(old(self).control(), old(self).encoded(), old(self).produced()),
                )
                &&& final(self).produced() == old(self).produced() + 1
            },
            old(self).produced() >= chunk_count(old(self).encoded().len()) ==> {
                &&& r is None
                &&& final(self).produced() == old(self).produced()
            },
    {
        assert(CHUNK_SIZE == 4096);
        let len = self.encoded.len();
        if self.offset >= len {
            assert(self.offset % 4096 == 0 ==> (self.offset + 4095) / 4096 == self.offset / 4096);
            return None;
        }
        let ghost k = self.produced();
        let end = if len - self.offset <= self.chunk_size {
            len
        } else {
            self.offset + self.chunk_size
        };
        let is_last = end >= len;
        assert(self.offset == k * CHUNK_SIZE);
        assert(end == chunk_end(len as nat, k));
        assert(is_last == is_last_chunk(len as nat, k));

        let mut head: Vec<u8> = Vec::new();
        if self.is_first {
            append_bytes(&mut head, self.control.as_slice(), 0, self.control.len());
            head.push(',' as u8);
            self.is_first = false;
            assert(self.control@.subrange(0, self.control@.len() as int) =~= self.control@);
        }
        head.push('m' as u8);
        head.push('=' as u8);
        head.push(if is_last { '0' as u8 } else { '1' as u8 });
        assert(head@ =~= chunk_control(self.control@, len as nat, k));

        let mut payload: Vec<u8> = Vec::new();
        append_bytes(&mut payload, self.encoded.as_slice(), self.offset, end);
        assert(payload@ =~= chunk_payload(self.encoded@, k));

        let bytes = build_frame(head.as_slice(), payload.as_slice());
        self.offset = end;
        assert(chunk_count(end as nat) == k + 1);
        crate::text::ascii_string(bytes).ok()
    }
}

/// Whether `chunks` are the frames of the chunks from `first` on, in their
/// order and up to the last, of the payload `encoded` sent with `control`.
pub open spec fn are_chunks(
    chunks: Seq<String>,
    control: Seq<u8>,
    encoded: Seq<u8>,
    first: nat,
) -> bool {
    &&& first + chunks.len() == chunk_count(encoded.len())
    &&& forall|i: int|
        0 <= i < chunks.len() ==> (#[trigger] chunks[i])@ == text_of(
            chunk_frame(control, encoded, (first + i) as nat),
        )
}

impl ChunkedSerializer {
    /// All the chunks that are left, in their order.
    pub fn collect(self) -> (chunks: Vec<String>)
        requires
            self.wf(),
        ensures
            are_chunks(chunks@, self.control(), self.encoded(), self.produced()),
    {
        let mut rest = self;
        let mut chunks: Vec<String> = Vec::new();
        let ghost total = chunk_count(self.encoded().len());
        proof {
            self.lemma_produced_bound();
        }
        while rest.has_more()
            invariant
                rest.wf(),
                rest.control() == self.control(),
                rest.encoded() == self.encoded(),
                total == chunk_count(self.encoded().len()),
                self.produced() <= rest.produced() <= total,
                chunks@.len() == rest.produced() - self.produced(),
                forall|i: int|
                    0 <= i < chunks@.len() ==> (#[trigger] chunks@[i])@ == text_of(
                        chunk_frame(self.control(), self.encoded(), (self.produced() + i) as nat),
                    ),
            decreases total - rest.produced(),
        {
            match rest.next() {
                Some(chunk) => {
                    chunks.push(chunk);
                },
                None => {},
            }
        }
        chunks
    }
}

/// The fields of a command that transmits and displays an image and asks
/// the terminal to keep quiet.
pub open spec fn transmit_fields(format: ImageFormat, size: Option<(u32, u32)>) -> CommandBuilder {
    CommandBuilder {
        action: Some(Action::TransmitAndDisplay),
        format: Some(format),
        width: match size {
            Some(s) => Some(s.0),
            None => None,
        },
        height: match size {
            Some(s) => Some(s.1),
            None => None,
        },
        quiet: Some(2u8),
        ..CommandBuilder::empty()
    }
}

/// What sending raw pixels of `depth` bytes each results in: the chunks,
/// where the payload holds exactly the bytes of `width` by `height` pixels;
/// otherwise the error that names the two dimensions.
pub open spec fn is_transmission(
    r: Result<Vec<String>, Error>,
    data: Seq<u8>,
    width: u32,
    height: u32,
    format: ImageFormat,
    depth: nat,
) -> bool {
    if data.len() == width * height * depth {
        r matches Ok(chunks) && are_chunks(
            chunks@,
            control_data(transmit_fields(format, Some((width, height)))),
            base64_standard(data),
            0,
        )
    } else {
        r matches Err(Error::InvalidDimensions { width: w, height: h }) && w == width && h
            == height
    }
}

impl Command {
    /// The command and its payload as a run of chunks, none handed out yet.
    pub fn serialize_chunked(&self, data: &[u8]) -> (r: Result<ChunkedSerializer, Error>)
        requires
            encodable_len(data@.len()),
        ensures
            r matches Ok(chunks) && {
                &&& chunks.wf()
                &&& chunks.control() == control_data(self.fields())
                &&& chunks.encoded() == base64_standard(data@)
                &&& chunks.encoded().len() == base64_len(data@.len())
                &&& chunks.produced() == 0
            },
    {
        let encoded = encode_standard(data);
        let chunk_size = MAX_CHUNK_SIZE / 4 * 4;
        Ok(
            ChunkedSerializer {
                control: self.control_bytes(),
                encoded,
                chunk_size,
                offset: 0,
                is_first: true,
            },
        )
    }

    /// The chunks that transmit and display a PNG image.
    pub fn transmit_png(data: &[u8]) -> (r: Result<Vec<String>, Error>)
        requires
            encodable_len(data@.len()),
        ensures
            r matches Ok(chunks) && are_chunks(
                chunks@,
                control_data(transmit_fields(ImageFormat::Png, None)),
                base64_standard(data@),
                0,
            ),
    {
        let cmd = Command::builder().action(Action::TransmitAndDisplay).format(
            ImageFormat::Png,
        ).quiet(2).build();
        match cmd.serialize_chunked(data) {
            Ok(chunks) => Ok(chunks.collect()),
            Err(e) => Err(e),
        }
    }

    /// The chunks that transmit and display an image of `width` by `height`
    /// pixels of four bytes each. The payload must hold exactly that many.
    pub fn transmit_rgba(data: &[u8], width: u32, height: u32) -> (r: Result<Vec<String>, Error>)
        requires
            encodable_len(data@.len()),
        ensures
            is_transmission(r, data@, width, height, ImageFormat::Rgba, 4 as nat),
    {
        Command::transmit_raw(data, width, height, ImageFormat::Rgba, 4)
    }

    /// The chunks that transmit and display an image of `width` by `height`
    /// pixels of three bytes each. The payload must hold exactly that many.
    pub fn transmit_rgb(data: &[u8], width: u32, height: u32) -> (r: Result<Vec<String>, Error>)
        requires
            encodable_len(data@.len()),
        ensures
            is_transmission(r, data@, width, height, ImageFormat::Rgb, 3 as nat),
    {
        Command::transmit_raw(data, width, height, ImageFormat::Rgb, 3)
    }

    /// The chunks that transmit and display raw pixels of `depth` bytes each.
    fn transmit_raw(data: &[u8], width: u32, height: u32, format: ImageFormat, depth: u8) -> (r:
        Result<Vec<String>, Error>)
        requires
            encodable_len(data@.len()),
        ensures
            is_transmission(r, data@, width, height, format, depth as nat),
    {
        // The product is taken in 128 bits, where it cannot overflow.
        assert(width * height * depth <= 0xffff_ffff * 0xffff_ffff * 0xff) by (nonlinear_arith)
            requires
                width <= 0xffff_ffff,
                height <= 0xffff_ffff,
                depth <= 0xff,
        ;
        assert(width * height <= 0xffff_ffff * 0xffff_ffff) by (nonlinear_arith)
            requires
                width <= 0xffff_ffff,
                height <= 0xffff_ffff,
        ;
        let expected: u128 = (width as u128) * (height as u128) * (depth as u128);
        if data.len() as u128 != expected {
            return Err(Error::InvalidDimensions { width, height });
        }
        let cmd = Command::builder().action(Action::TransmitAndDisplay).format(format).dimensions(
            width,
            height,
        ).quiet(2).build();
        match cmd.serialize_chunked(data) {
            Ok(chunks) => Ok(chunks.collect()),
            Err(e) => Err(e),
        }
    }
}

/// The control data of a transmission of raw pixels names the action, the
/// format, the width, the height and the quiet level, in this order:
/// `a=T,f=<format>,s=<width>,v=<height>,q=2`.
pub proof fn lemma_transmit_control(format: ImageFormat, width: u32, height: u32)
    ensures
        control_data(transmit_fields(format, Some((width, height)))) == seq![
            'a' as u8,
            '=' as u8,
            'T' as u8,
            ',' as u8,
            'f' as u8,
            '=' as u8,
        ] + decimal(format.wire() as int) + seq![',' as u8, 's' as u8, '=' as u8] + decimal(
            width as int,
        ) + seq![',' as u8, 'v' as u8, '=' as u8] + decimal(height as int) + seq![
            ',' as u8,
            'q' as u8,
            '=' as u8,
            '2' as u8,
        ],
{
    let c = transmit_fields(format, Some((width, height)));
    let a = field('a', seq!['T' as u8]);
    let f = field('f', decimal(format.wire() as int));
    let s = field('s', decimal(width as int));
    let v = field('v', decimal(height as int));
    let q = field('q', decimal(2));
    assert(decimal(2) =~= seq!['2' as u8]);
    assert(control_fields(c) =~= seq![a, f, s, v, q]);
    assert(seq![a, f] =~= seq![a].push(f));
    assert(seq![a, f, s] =~= seq![a, f].push(s));
    assert(seq![a, f, s, v] =~= seq![a, f, s].push(v));
    assert(seq![a, f, s, v, q] =~= seq![a, f, s, v].push(q));
    lemma_join_push(seq![a], f);
    lemma_join_push(seq![a, f], s);
    lemma_join_push(seq![a, f, s], v);
    lemma_join_push(seq![a, f, s, v], q);
    assert(join(seq![a, f, s, v, q]) =~= seq![
        'a' as u8,
        '=' as u8,
        'T' as u8,
        ',' as u8,
        'f' as u8,
        '=' as u8,
    ] + decimal(format.wire() as int) + seq![',' as u8, 's' as u8, '=' as u8] + decimal(
        width as int,
    ) + seq![',' as u8, 'v' as u8, '=' as u8] + decimal(height as int) + seq![
        ',' as u8,
        'q' as u8,
        '=' as u8,
        '2' as u8,
    ]);
}

/// A payload of `n` base64 characters is sent in `n / CHUNK_SIZE` chunks,
/// rounded up: chunk `k` exists exactly where the payload has characters
/// from `k * CHUNK_SIZE` on.
pub proof fn lemma_chunk_count(n: nat, k: nat)
    ensures
        k < chunk_count(n) <==> k * CHUNK_SIZE < n,
        n % (CHUNK_SIZE as nat) == 0 ==> chunk_count(n) * CHUNK_SIZE == n,
        n % (CHUNK_SIZE as nat) != 0 ==> (chunk_count(n) - 1) * CHUNK_SIZE < n < chunk_count(n)
            * CHUNK_SIZE,
{
    assert(CHUNK_SIZE == 4096);
    let count = (n + 4095) / 4096;
    assert(chunk_count(n) == count);
    if n % 4096 == 0 {
        assert(count * 4096 == n);
    } else {
        assert((count - 1) * 4096 < n < count * 4096);
    }
    if k < count {
        assert(k * 4096 <= (count - 1) * 4096);
    } else {
        assert(k * 4096 >= count * 4096);
    }
}

/// Every chunk but the last carries exactly `CHUNK_SIZE` characters and
/// says `m=1`; the last carries what is left, at least one character, and
/// says `m=0`. Only the first chunk carries the control data.
pub proof fn lemma_chunk_shape(control: Seq<u8>, encoded: Seq<u8>, k: nat)
    requires
        k < chunk_count(encoded.len()),
    ensures
        is_last_chunk(encoded.len(), k) <==> k + 1 == chunk_count(encoded.len()),
        !is_last_chunk(encoded.len(), k) ==> chunk_payload(encoded, k).len() == CHUNK_SIZE,
        is_last_chunk(encoded.len(), k) ==> chunk_payload(encoded, k).len() == encoded.len() - k
            * CHUNK_SIZE && 1 <= chunk_payload(encoded, k).len() <= CHUNK_SIZE,
        chunk_frame(control, encoded, k) == apc_start() + seq!['G' as u8] + (if k == 0 {
            control + seq![',' as u8]
        } else {
            Seq::<u8>::empty()
        }) + seq![
            'm' as u8,
            '=' as u8,
            if k + 1 == chunk_count(encoded.len()) {
                '0' as u8
            } else {
                '1' as u8
            },
        ] + seq![';' as u8] + chunk_payload(encoded, k) + apc_end(),
{
    lemma_chunk_count(encoded.len(), k);
    lemma_chunk_count(encoded.len(), k + 1);
    assert((k + 1) * CHUNK_SIZE == k * CHUNK_SIZE + CHUNK_SIZE) by (nonlinear_arith);
}

/// The payloads of the first `k` chunks, one after the other.
pub open spec fn payloads(encoded: Seq<u8>, k: nat) -> Seq<u8>
    decreases k,
{
    if k == 0 {
        Seq::empty()
    } else {
        payloads(encoded, (k - 1) as nat) + chunk_payload(encoded, (k - 1) as nat)
    }
}

/// The payloads of the first `k` chunks make up the payload as far as
/// those chunks reach.
pub proof fn lemma_payloads_prefix(encoded: Seq<u8>, k: nat)
    requires
        k <= chunk_count(encoded.len()),
    ensures
        payloads(encoded, k) == encoded.subrange(
            0,
            if k * CHUNK_SIZE < encoded.len() {
                k * CHUNK_SIZE
            } else {
                encoded.len() as int
            },
        ),
    decreases k,
{
    if k > 0 {
        let j = (k - 1) as nat;
        lemma_payloads_prefix(encoded, j);
        lemma_chunk_count(encoded.len(), j);
        assert((j + 1) * CHUNK_SIZE == j * CHUNK_SIZE + CHUNK_SIZE) by (nonlinear_arith);
        assert(payloads(encoded, k) =~= encoded.subrange(
            0,
            if k * CHUNK_SIZE < encoded.len() {
                k * CHUNK_SIZE
            } else {
                encoded.len() as int
            },
        ));
    } else {
        assert(payloads(encoded, k) =~= encoded.subrange(0, 0));
    }
}

/// The payloads of all the chunks, one after the other, are the payload.
pub proof fn lemma_payloads_whole(encoded: Seq<u8>)
    ensures
        payloads(encoded, chunk_count(encoded.len())) == encoded,
{
    let count = chunk_count(encoded.len());
    lemma_payloads_prefix(encoded, count);
    lemma_chunk_count(encoded.len(), count);
    assert(encoded.subrange(0, encoded.len() as int) =~= encoded);
}

/// One frame and the run of chunks carry the same payload: what the frame
/// of `serialize` carries is what the chunks of `serialize_chunked` carry,
/// put together in their order.
pub proof fn lemma_same_payload(control: Seq<u8>, encoded: Seq<u8>)
    ensures
        frame(control, encoded) == frame(control, payloads(encoded, chunk_count(encoded.len()))),
{
    lemma_payloads_whole(encoded);
}

} // verus!
