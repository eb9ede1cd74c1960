//! The chunked truecolor protocol: raw RGB bytes in base64, carried in
//! frames whose payload never exceeds 4096 characters.

use vstd::prelude::*;
use vstd::string::*;

use crate::text::{chars_of, decimal, push_char, push_decimal, concat_all};

verus! {

/// The largest payload that one frame carries.
pub const CHUNK: usize = 4096;

/// The string terminator that closes every frame.
pub open spec fn frame_end() -> Seq<char> {
    "\x1b\\"@
}

/// Start of the first frame: truecolor format, size, transmit action, and
/// the continuation flag when more frames follow.
pub open spec fn kitty_head(width: u32, height: u32, more: bool) -> Seq<char> {
    "\x1b_Gf=24,s="@ + decimal(width as nat) + ",v="@ + decimal(height as nat) + (if more {
        ",a=T,m=1;"@
    } else {
        ",a=T;"@
    })
}

/// A continuation frame carrying only the flag and its payload.
pub open spec fn continuation_frame(more: bool, payload: Seq<char>) -> Seq<char> {
    (if more {
        "\x1b_Gm=1;"@
    } else {
        "\x1b_Gm=0;"@
    }) + payload + frame_end()
}

/// Number of continuation frames for a payload of `len` characters.
pub open spec fn continuation_count(len: int) -> int {
    if len <= CHUNK {
        0
    } else {
        (len - CHUNK + CHUNK - 1) / CHUNK as int
    }
}

/// Piece `i` of what follows the first 4096 characters.
pub open spec fn continuation_piece(enc: Seq<char>, i: int) -> Seq<char> {
    let lo = CHUNK * (i + 1);
    let hi = if CHUNK * (i + 2) < enc.len() {
        CHUNK * (i + 2)
    } else {
        enc.len() as int
    };
    enc.subrange(lo, hi)
}

/// The frames for an image of the given size whose encoded pixels are
/// `enc`: one plain frame when the payload fits, else a first frame
/// flagged `m=1` with the first 4096 characters and continuation frames
/// of 4096 characters each (the last one shorter), all flagged `m=1` but
/// the last, flagged `m=0`.
pub open spec fn frames_of(width: u32, height: u32, enc: Seq<char>) -> Seq<Seq<char>> {
    if enc.len() <= CHUNK {
        seq![kitty_head(width, height, false) + enc + frame_end()]
    } else {
        let n = continuation_count(enc.len() as int);
        seq![kitty_head(width, height, true) + enc.take(CHUNK as int) + frame_end()] + Seq::new(
            n as nat,
            |i: int| continuation_frame(i < n - 1, continuation_piece(enc, i)),
        )
    }
}

fn push_range(out: &mut String, cs: &Vec<char>, lo: usize, hi: usize)
    requires
        lo <= hi <= cs.len(),
    ensures
        final(out)@ == old(out)@ + cs@.subrange(lo as int, hi as int),
{
    let mut i: usize = lo;
    while i < hi
        invariant
            lo <= i <= hi <= cs.len(),
            out@ == old(out)@ + cs@.subrange(lo as int, i as int),
        decreases hi - i,
    {
        push_char(out, cs[i]);
        i = i + 1;
        assert(out@ =~= old(out)@ + cs@.subrange(lo as int, i as int));
    }
}

fn head(width: u32, height: u32, more: bool) -> (r: String)
    ensures
        r@ == kitty_head(width, height, more),
{
    let mut s = String::from_str("\x1b_Gf=24,s=");
    push_decimal(&mut s, width as u64);
    s.append(",v=");
    push_decimal(&mut s, height as u64);
    if more {
        s.append(",a=T,m=1;");
    } else {
        s.append(",a=T;");
    }
    s
}

/// Splits an encoded payload into the protocol's frames.
pub fn kitty_frames(width: u32, height: u32, encoded: &str) -> (r: Vec<String>)
    ensures
        r@.map_values(|f: String| f@) == frames_of(width, height, encoded@),
{
    let cs = chars_of(encoded);
    let len = cs.len();
    let mut frames: Vec<String> = Vec::new();
    if len <= CHUNK {
        let mut f = head(width, height, false);
        push_range(&mut f, &cs, 0, len);
        f.append("\x1b\\");
        assert(cs@.subrange(0, len as int) =~= encoded@);
        frames.push(f);
        assert(frames@.map_values(|f: String| f@) =~= frames_of(width, height, encoded@));
        return frames;
    }
    let mut first = head(width, height, true);
    push_range(&mut first, &cs, 0, CHUNK);
    first.append("\x1b\\");
    frames.push(first);
    let ghost n = continuation_count(len as int);
    let ghost expected = frames_of(width, height, encoded@);
    assert(cs@.subrange(0, CHUNK as int) =~= encoded@.take(CHUNK as int));
    let mut i: usize = 0;
    let mut off: usize = CHUNK;
    while off < len
        invariant
            cs@ == encoded@,
            len == cs.len(),
            len > CHUNK,
            n == continuation_count(len as int),
            expected == frames_of(width, height, encoded@),
            off < len ==> off == CHUNK * (i + 1),
            off <= len,
            i <= n,
            off < len ==> i < n,
            off >= len ==> i == n,
            frames@.len() == i + 1,
            forall|k: int| 0 <= k <= i ==> #[trigger] frames@[k]@ == expected[k],
        decreases len - off,
    {
        let end = if len - off > CHUNK {
            off + CHUNK
        } else {
            len
        };
        let more = end < len;
        let mut f = if more {
            String::from_str("\x1b_Gm=1;")
        } else {
            String::from_str("\x1b_Gm=0;")
        };
        push_range(&mut f, &cs, off, end);
        f.append("\x1b\\");
        proof {
            assert((more) == (i < n - 1)) by (nonlinear_arith)
                requires
                    n == (len - CHUNK + CHUNK - 1) / CHUNK as int,
                    off == CHUNK * (i + 1),
                    off < len,
                    more == (end < len),
                    end == (if len - off > CHUNK { off + CHUNK } else { len as int }),
                    CHUNK == 4096,
            ;
            assert(f@ == expected[i + 1]);
        }
        frames.push(f);
        proof {
            let j = i + 1;
            assert(end < len ==> j < n) by (nonlinear_arith)
                requires
                    n == (len - CHUNK + CHUNK - 1) / CHUNK as int,
                    end == (if len - off > CHUNK { off + CHUNK } else { len as int }),
                    off == CHUNK * (i + 1),
                    j == i + 1,
                    CHUNK == 4096,
            ;
            assert(end >= len ==> j == n) by (nonlinear_arith)
                requires
                    n == (len - CHUNK + CHUNK - 1) / CHUNK as int,
                    end == (if len - off > CHUNK { off + CHUNK } else { len as int }),
                    off == CHUNK * (i + 1),
                    off < len,
                    j == i + 1,
                    CHUNK == 4096,
            ;
        }
        i = i + 1;
        off = end;
    }
    assert(frames@.map_values(|f: String| f@) =~= expected);
    frames
}

/// All frames, one after the other, as the terminal reads them.
pub fn kitty_text(width: u32, height: u32, encoded: &str) -> (r: String)
    ensures
        r@ == concat_all(frames_of(width, height, encoded@)),
{
    let frames = kitty_frames(width, height, encoded);
    let ghost fs = frames@.map_values(|f: String| f@);
    let mut out = String::new();
    let mut i: usize = 0;
    while i < frames.len()
        invariant
            i <= frames.len(),
            fs == frames@.map_values(|f: String| f@),
            out@ == concat_all(fs.take(i as int)),
        decreases frames.len() - i,
    {
        out.append(frames[i].as_str());
        proof {
            assert(fs.take(i + 1).drop_last() =~= fs.take(i as int));
        }
        i = i + 1;
    }
    assert(fs.take(frames.len() as int) =~= fs);
    out
}

/// A payload of exactly 4096 characters travels in one frame without a
/// continuation flag; one of 4097 characters in two, the first flagged
/// `m=1` and the second `m=0`.
pub proof fn lemma_chunk_boundary(width: u32, height: u32, enc: Seq<char>)
    ensures
        enc.len() == 4096 ==> frames_of(width, height, enc) == seq![
            kitty_head(width, height, false) + enc + frame_end(),
        ],
        enc.len() == 4097 ==> frames_of(width, height, enc) == seq![
            kitty_head(width, height, true) + enc.take(4096) + frame_end(),
            continuation_frame(false, enc.subrange(4096, 4097)),
        ],
{
    if enc.len() == 4097 {
        let n = continuation_count(4097);
        assert(n == 1);
        assert(frames_of(width, height, enc) =~= seq![
            kitty_head(width, height, true) + enc.take(4096) + frame_end(),
            continuation_frame(false, enc.subrange(4096, 4097)),
        ]);
    }
}

} // verus!
