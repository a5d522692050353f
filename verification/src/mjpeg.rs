//! Formatting of one multipart MJPEG part, as sent on the streaming HTTP
//! response: a boundary line, a content-type and exact content-length header,
//! a blank line, the frame bytes, and a trailing line break.

use vstd::prelude::*;

use crate::digits::dec_bytes;
use crate::digits::spec_dec_bytes;

verus! {

/// The characters of an ASCII string as bytes.
pub open spec fn ascii_bytes(s: Seq<char>) -> Seq<u8> {
    Seq::new(s.len(), |i: int| s[i] as u8)
}

/// The exact bytes of one multipart part carrying `frame`.
pub open spec fn spec_mjpeg_part(frame: Seq<u8>) -> Seq<u8> {
    ascii_bytes("--frame\r\nContent-Type: image/jpeg\r\nContent-Length: "@) + spec_dec_bytes(
        frame.len(),
    ) + ascii_bytes("\r\n\r\n"@) + frame + ascii_bytes("\r\n"@)
}

/// Append the bytes of an ASCII string.
fn push_ascii(v: &mut Vec<u8>, s: &str)
    requires
        s.is_ascii(),
    ensures
        final(v)@ == old(v)@ + ascii_bytes(s@),
{
    let len = s.unicode_len();
    let mut i: usize = 0;
    proof {
        assert(v@ + ascii_bytes(s@).take(0) =~= v@);
    }
    while i < len
        invariant
            i <= len,
            len == s@.len(),
            s.is_ascii(),
            v@ == old(v)@ + ascii_bytes(s@).take(i as int),
        decreases len - i,
    {
        let b = s.get_ascii(i);
        v.push(b);
        proof {
            assert(ascii_bytes(s@).take(i as int + 1) =~= ascii_bytes(s@).take(i as int).push(
                s@[i as int] as u8,
            ));
            assert(old(v)@ + ascii_bytes(s@).take(i as int + 1) =~= (old(v)@ + ascii_bytes(
                s@,
            ).take(i as int)).push(s@[i as int] as u8));
        }
        i += 1;
    }
    proof {
        assert(ascii_bytes(s@).take(len as int) =~= ascii_bytes(s@));
    }
}

/// Format one multipart part around a JPEG frame, exactly as specified by
/// `spec_mjpeg_part`: the declared content length is the decimal length of the
/// frame, and the frame bytes appear verbatim between the blank line and the
/// final line break.
pub fn encode_mjpeg_part(frame: &Vec<u8>) -> (r: Vec<u8>)
    ensures
        r@ == spec_mjpeg_part(frame@),
{
    proof {
        reveal_strlit("--frame\r\nContent-Type: image/jpeg\r\nContent-Length: ");
        reveal_strlit("\r\n\r\n");
        reveal_strlit("\r\n");
    }
    let mut v: Vec<u8> = Vec::new();
    push_ascii(&mut v, "--frame\r\nContent-Type: image/jpeg\r\nContent-Length: ");
    let mut digits = dec_bytes(frame.len());
    v.append(&mut digits);
    push_ascii(&mut v, "\r\n\r\n");
    let mut i: usize = 0;
    let ghost before = v@;
    while i < frame.len()
        invariant
            i <= frame@.len(),
            v@ == before + frame@.take(i as int),
        decreases frame@.len() - i,
    {
        let b = frame[i];
        v.push(b);
        proof {
            assert(before + frame@.take(i as int + 1) =~= (before + frame@.take(i as int)).push(
                frame@[i as int],
            ));
        }
        i += 1;
    }
    proof {
        assert(frame@.take(frame@.len() as int) =~= frame@);
    }
    push_ascii(&mut v, "\r\n");
    proof {
        assert(v@ =~= spec_mjpeg_part(frame@));
    }
    v
}

} // verus!
