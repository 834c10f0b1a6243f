//! `0xFF`-framed QCY packets: `[0xFF] [body_len] ([cmd] [param_len] [params..])*`.
//!
//! There is no checksum: the declared lengths and the bounds are the only integrity
//! checks, so the decoder validates every one of them before it hands out a block.

use vstd::prelude::*;

use crate::protocol::SOF;

verus! {

/// One command block of a frame: an opcode and its parameter bytes.
#[derive(Debug, Clone, PartialEq, Eq)]
pub struct CommandBlock {
    pub cmd: u8,
    pub params: Vec<u8>,
}

/// A decoded frame: its command blocks, in wire order.
#[derive(Debug, Clone, PartialEq, Eq)]
pub struct Packet {
    pub blocks: Vec<CommandBlock>,
}

/// Why a frame could not be decoded (or a block list could not be encoded).
#[derive(Debug, Clone, PartialEq, Eq, Structural)]
pub enum DecodeError {
    TooShort,
    BadSof,
    LengthMismatch,
    TruncatedBlock,
    Oversize,
}

/// Largest buffer the decoder accepts.
pub const MAX_PACKET: usize = 512;

/// Mathematical model of a command block: opcode and parameter bytes.
pub type BlockModel = (u8, Seq<u8>);

impl View for CommandBlock {
    type V = BlockModel;

    open spec fn view(&self) -> BlockModel {
        (self.cmd, self.params@)
    }
}

/// The models of a slice of blocks, in order.
pub open spec fn blocks_view(blocks: Seq<CommandBlock>) -> Seq<BlockModel> {
    blocks.map_values(|b: CommandBlock| b@)
}

impl View for Packet {
    type V = Seq<BlockModel>;

    open spec fn view(&self) -> Seq<BlockModel> {
        blocks_view(self.blocks@)
    }
}

/// Wire bytes of one block: opcode, parameter length, parameters.
pub open spec fn block_bytes(b: BlockModel) -> Seq<u8> {
    seq![b.0, b.1.len() as u8] + b.1
}

/// Wire bytes of a block list (the frame body), front to back.
pub open spec fn encode_body(blocks: Seq<BlockModel>) -> Seq<u8>
    decreases blocks.len(),
{
    if blocks.len() == 0 {
        Seq::empty()
    } else {
        block_bytes(blocks[0]) + encode_body(blocks.drop_first())
    }
}

/// Every block's parameters fit the one-byte length field.
pub open spec fn params_fit(blocks: Seq<BlockModel>) -> bool {
    forall|i: int| 0 <= i < blocks.len() ==> #[trigger] blocks[i].1.len() <= 255
}

/// The frame that encodes `blocks`, or `Oversize` when a parameter list or the
/// whole body does not fit a one-byte length.
pub open spec fn spec_encode(blocks: Seq<BlockModel>) -> Result<Seq<u8>, DecodeError> {
    if params_fit(blocks) && encode_body(blocks).len() <= 255 {
        Ok(seq![SOF, encode_body(blocks).len() as u8] + encode_body(blocks))
    } else {
        Err(DecodeError::Oversize)
    }
}

/// Splits a frame body into blocks; `None` when a block header or its parameters
/// run past the end of the body.
pub open spec fn parse_blocks(body: Seq<u8>) -> Option<Seq<BlockModel>>
    decreases body.len(),
{
    if body.len() == 0 {
        Some(Seq::empty())
    } else if body.len() < 2 {
        None
    } else if 2 + body[1] > body.len() {
        None
    } else {
        match parse_blocks(body.subrange(2 + body[1] as int, body.len() as int)) {
            Some(rest) => Some(seq![(body[0], body.subrange(2, 2 + body[1] as int))] + rest),
            None => None,
        }
    }
}

/// What decoding `data` yields: the checks run in this order, the first failing
/// one names the error.
pub open spec fn spec_decode(data: Seq<u8>) -> Result<Seq<BlockModel>, DecodeError> {
    if data.len() < 2 {
        Err(DecodeError::TooShort)
    } else if data.len() > MAX_PACKET {
        Err(DecodeError::Oversize)
    } else if data[0] != SOF {
        Err(DecodeError::BadSof)
    } else if data.len() != data[1] + 2 {
        Err(DecodeError::LengthMismatch)
    } else {
        match parse_blocks(data.subrange(2, data.len() as int)) {
            Some(blocks) => Ok(blocks),
            None => Err(DecodeError::TruncatedBlock),
        }
    }
}

/// True when `data` is a well-formed frame.
pub open spec fn is_valid_frame(data: Seq<u8>) -> bool {
    spec_decode(data) is Ok
}

proof fn lemma_encode_body_push(blocks: Seq<BlockModel>, b: BlockModel)
    ensures
        encode_body(blocks.push(b)) == encode_body(blocks) + block_bytes(b),
    decreases blocks.len(),
{
    let s = blocks.push(b);
    if blocks.len() == 0 {
        assert(s.drop_first() =~= Seq::<BlockModel>::empty());
        assert(s[0] == b);
        assert(encode_body(s.drop_first()) == Seq::<u8>::empty());
        assert(encode_body(blocks) == Seq::<u8>::empty());
        assert(encode_body(s) =~= block_bytes(b));
    } else {
        lemma_encode_body_push(blocks.drop_first(), b);
        assert(s.drop_first() =~= blocks.drop_first().push(b));
        assert(s[0] == blocks[0]);
        assert(encode_body(blocks.push(b)) =~= encode_body(blocks) + block_bytes(b));
    }
}

proof fn lemma_parse_encode(blocks: Seq<BlockModel>)
    requires
        params_fit(blocks),
    ensures
        parse_blocks(encode_body(blocks)) == Some(blocks),
    decreases blocks.len(),
{
    if blocks.len() == 0 {
    } else {
        let b = blocks[0];
        let rest = blocks.drop_first();
        assert(b.1.len() <= 255);
        assert(params_fit(rest)) by {
            assert forall|i: int| 0 <= i < rest.len() implies #[trigger] rest[i].1.len() <= 255 by {
                assert(rest[i] == blocks[i + 1]);
            }
        }
        lemma_parse_encode(rest);
        let body = encode_body(blocks);
        assert(body == block_bytes(b) + encode_body(rest));
        assert(body[0] == b.0);
        assert(body[1] == b.1.len() as u8);
        assert((b.1.len() as u8) as int == b.1.len());
        assert(body.subrange(2, 2 + body[1] as int) =~= b.1);
        assert(body.subrange(2 + body[1] as int, body.len() as int) =~= encode_body(rest));
        assert(seq![(b.0, b.1)] + rest =~= blocks);
    }
}

proof fn lemma_encode_parse(body: Seq<u8>)
    requires
        parse_blocks(body) is Some,
    ensures
        params_fit(parse_blocks(body).unwrap()),
        encode_body(parse_blocks(body).unwrap()) == body,
    decreases body.len(),
{
    if body.len() == 0 {
    } else {
        let n = body[1] as int;
        let tail = body.subrange(2 + n, body.len() as int);
        lemma_encode_parse(tail);
        let rest = parse_blocks(tail).unwrap();
        let head: BlockModel = (body[0], body.subrange(2, 2 + n));
        let blocks = parse_blocks(body).unwrap();
        assert(blocks == seq![head] + rest);
        assert(blocks.drop_first() =~= rest);
        assert(blocks[0] == head);
        assert(head.1.len() == n);
        assert((n as u8) == body[1]);
        assert(encode_body(blocks) == block_bytes(head) + encode_body(rest));
        assert(block_bytes(head) + tail =~= body);
        assert forall|i: int| 0 <= i < blocks.len() implies #[trigger] blocks[i].1.len() <= 255 by {
            if i > 0 {
                assert(blocks[i] == rest[i - 1]);
            }
        }
    }
}

/// Encoding then decoding gives back the blocks: every frame the encoder
/// produces is accepted by the decoder, block for block.
pub proof fn lemma_decode_of_encode(blocks: Seq<BlockModel>)
    requires
        spec_encode(blocks) is Ok,
    ensures
        spec_decode(spec_encode(blocks).unwrap()) == Ok::<Seq<BlockModel>, DecodeError>(blocks),
{
    let body = encode_body(blocks);
    let frame = spec_encode(blocks).unwrap();
    lemma_parse_encode(blocks);
    assert(frame.subrange(2, frame.len() as int) =~= body);
    assert((body.len() as u8) as int == body.len());
}

/// Decoding then encoding gives back the bytes: a valid frame has exactly one
/// wire form, the one the encoder produces.
pub proof fn lemma_encode_of_decode(data: Seq<u8>)
    requires
        spec_decode(data) is Ok,
    ensures
        spec_encode(spec_decode(data).unwrap()) == Ok::<Seq<u8>, DecodeError>(data),
{
    let body = data.subrange(2, data.len() as int);
    lemma_encode_parse(body);
    let blocks = spec_decode(data).unwrap();
    assert(encode_body(blocks) == body);
    assert(body.len() == data[1]);
    assert(seq![SOF, body.len() as u8] + body =~= data);
}

/// Appends every element of `src` to `dst`.
fn append_bytes(dst: &mut Vec<u8>, src: &[u8])
    ensures
        final(dst)@ == old(dst)@ + src@,
{
    let mut i: usize = 0;
    while i < src.len()
        invariant
            i <= src@.len(),
            dst@ == old(dst)@ + src@.subrange(0, i as int),
        decreases src@.len() - i,
    {
        dst.push(src[i]);
        i = i + 1;
        assert(dst@ =~= old(dst)@ + src@.subrange(0, i as int));
    }
    assert(src@.subrange(0, src@.len() as int) =~= src@);
}

/// Copies a byte range out of a slice.
fn copy_range(src: &[u8], from: usize, to: usize) -> (out: Vec<u8>)
    requires
        from <= to <= src@.len(),
    ensures
        out@ == src@.subrange(from as int, to as int),
{
    let mut out: Vec<u8> = Vec::new();
    let mut i: usize = from;
    while i < to
        invariant
            from <= i <= to <= src@.len(),
            out@ == src@.subrange(from as int, i as int),
        decreases to - i,
    {
        out.push(src[i]);
        i = i + 1;
        assert(out@ =~= src@.subrange(from as int, i as int));
    }
    out
}

/// A copy of a byte slice.
pub fn copy_all(src: &[u8]) -> (out: Vec<u8>)
    ensures
        out@ == src@,
{
    let out = copy_range(src, 0, src.len());
    assert(out@ =~= src@);
    out
}

/// Encodes command blocks into one frame. Fails with `Oversize` when a block has
/// more than 255 parameter bytes or the body exceeds 255 bytes.
pub fn encode_blocks(blocks: &[CommandBlock]) -> (res: Result<Vec<u8>, DecodeError>)
    ensures
        match res {
            Ok(frame) => spec_encode(blocks_view(blocks@)) == Ok::<Seq<u8>, DecodeError>(frame@),
            Err(e) => spec_encode(blocks_view(blocks@)) == Err::<Seq<u8>, DecodeError>(e),
        },
{
    let ghost model = blocks_view(blocks@);
    let mut body: Vec<u8> = Vec::new();
    let mut i: usize = 0;
    while i < blocks.len()
        invariant
            i <= blocks@.len(),
            model == blocks_view(blocks@),
            params_fit(model.take(i as int)),
            body@ == encode_body(model.take(i as int)),
            body@.len() <= 255,
        decreases blocks@.len() - i,
    {
        let b = &blocks[i];
        proof {
            lemma_encode_body_push(model.take(i as int), model[i as int]);
            assert(model.take(i as int).push(model[i as int]) =~= model.take(i + 1));
        }
        if b.params.len() > 255 {
            proof {
                assert(model[i as int].1.len() > 255);
                assert(!params_fit(model));
            }
            return Err(DecodeError::Oversize);
        }
        body.push(b.cmd);
        body.push(b.params.len() as u8);
        append_bytes(&mut body, b.params.as_slice());
        assert(body@ =~= encode_body(model.take(i as int)) + block_bytes(model[i as int]));
        i = i + 1;
        assert(params_fit(model.take(i as int))) by {
            assert forall|j: int| 0 <= j < model.take(i as int).len() implies
                #[trigger] model.take(i as int)[j].1.len() <= 255 by {
                if j < i - 1 {
                    assert(model.take(i as int)[j] == model.take(i - 1)[j]);
                }
            }
        }
        if body.len() > 255 {
            proof {
                lemma_encode_body_prefix_len(model, i as int);
            }
            return Err(DecodeError::Oversize);
        }
    }
    assert(model.take(blocks@.len() as int) =~= model);
    let mut out: Vec<u8> = Vec::new();
    out.push(SOF);
    out.push(body.len() as u8);
    append_bytes(&mut out, body.as_slice());
    assert(out@ =~= seq![SOF, body@.len() as u8] + body@);
    Ok(out)
}

proof fn lemma_encode_body_prefix_len(blocks: Seq<BlockModel>, k: int)
    requires
        0 <= k <= blocks.len(),
    ensures
        encode_body(blocks.take(k)).len() <= encode_body(blocks).len(),
    decreases blocks.len() - k,
{
    if k < blocks.len() {
        lemma_encode_body_prefix_len(blocks, k + 1);
        lemma_encode_body_push(blocks.take(k), blocks[k]);
        assert(blocks.take(k).push(blocks[k]) =~= blocks.take(k + 1));
    } else {
        assert(blocks.take(k) =~= blocks);
    }
}

/// Encodes a single command block.
pub fn encode_command(cmd: u8, params: &[u8]) -> (res: Result<Vec<u8>, DecodeError>)
    ensures
        match res {
            Ok(frame) => spec_encode(seq![(cmd, params@)]) == Ok::<Seq<u8>, DecodeError>(
                frame@,
            ),
            Err(e) => spec_encode(seq![(cmd, params@)]) == Err::<Seq<u8>, DecodeError>(e),
        },
{
    let block = CommandBlock { cmd, params: copy_range(params, 0, params.len()) };
    assert(block.params@ =~= params@);
    let blocks = vec![block];
    let res = encode_blocks(blocks.as_slice());
    assert(blocks_view(blocks@) =~= seq![(cmd, params@)]);
    res
}

/// Decodes a frame, validating the start marker, the declared body length and
/// every block's bounds.
pub fn decode_packet(data: &[u8]) -> (res: Result<Packet, DecodeError>)
    ensures
        match res {
            Ok(p) => spec_decode(data@) == Ok::<Seq<BlockModel>, DecodeError>(p@),
            Err(e) => spec_decode(data@) == Err::<Seq<BlockModel>, DecodeError>(e),
        },
{
    if data.len() < 2 {
        return Err(DecodeError::TooShort);
    }
    if data.len() > MAX_PACKET {
        return Err(DecodeError::Oversize);
    }
    if data[0] != SOF {
        return Err(DecodeError::BadSof);
    }
    let body_len = data[1] as usize;
    if data.len() != body_len + 2 {
        return Err(DecodeError::LengthMismatch);
    }
    let ghost whole = data@.subrange(2, data@.len() as int);
    let mut blocks: Vec<CommandBlock> = Vec::new();
    let mut i: usize = 2;
    while i < data.len()
        invariant
            2 <= i <= data@.len(),
            data@.len() <= MAX_PACKET,
            data@[0] == SOF,
            data@.len() == data@[1] + 2,
            whole == data@.subrange(2, data@.len() as int),
            parse_blocks(whole) == match parse_blocks(data@.subrange(i as int, data@.len() as int)) {
                Some(rest) => Some(blocks_view(blocks@) + rest),
                None => None::<Seq<BlockModel>>,
            },
        decreases data@.len() - i,
    {
        let ghost cur = data@.subrange(i as int, data@.len() as int);
        if i + 2 > data.len() {
            assert(0 < cur.len() < 2);
            assert(parse_blocks(cur) is None);
            return Err(DecodeError::TruncatedBlock);
        }
        let cmd = data[i];
        let param_len = data[i + 1] as usize;
        assert(cur[1] == data@[i + 1]);
        if i + 2 + param_len > data.len() {
            assert(2 + cur[1] > cur.len());
            assert(parse_blocks(cur) is None);
            return Err(DecodeError::TruncatedBlock);
        }
        let params = copy_range(data, i + 2, i + 2 + param_len);
        let ghost head: BlockModel = (cmd, params@);
        proof {
            assert(cur[0] == cmd);
            assert(cur.subrange(2, 2 + cur[1] as int) =~= params@);
            assert(cur.subrange(2 + cur[1] as int, cur.len() as int) =~= data@.subrange(
                (i + 2 + param_len) as int,
                data@.len() as int,
            ));
        }
        let ghost old_view = blocks_view(blocks@);
        blocks.push(CommandBlock { cmd, params });
        assert(blocks_view(blocks@) =~= old_view.push(head));
        i = i + 2 + param_len;
        proof {
            let next = data@.subrange(i as int, data@.len() as int);
            match parse_blocks(next) {
                Some(rest) => {
                    assert(old_view + (seq![head] + rest) =~= old_view.push(head) + rest);
                },
                None => {},
            }
        }
    }
    assert(data@.subrange(i as int, data@.len() as int) =~= Seq::<u8>::empty());
    assert(blocks_view(blocks@) + Seq::<BlockModel>::empty() =~= blocks_view(blocks@));
    Ok(Packet { blocks })
}

} // verus!
