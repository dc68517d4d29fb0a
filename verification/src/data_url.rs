//! Decoding of data: URLs into a MIME type and a body.

use vstd::prelude::*;
use crate::outside::{base64_decode, base64_decode_of};
use crate::strutil::{lower_seq, push_char, str_eq_ci};
use crate::urls::{Url, UrlModel};

verus! {

/// The value of a hexadecimal digit; sixteen marks a non-digit.
pub open spec fn hex_val(c: char) -> nat {
    match c {
        '0' => 0nat,
        '1' => 1nat,
        '2' => 2nat,
        '3' => 3nat,
        '4' => 4nat,
        '5' => 5nat,
        '6' => 6nat,
        '7' => 7nat,
        '8' => 8nat,
        '9' => 9nat,
        'a' => 10nat,
        'b' => 11nat,
        'c' => 12nat,
        'd' => 13nat,
        'e' => 14nat,
        'f' => 15nat,
        'A' => 10nat,
        'B' => 11nat,
        'C' => 12nat,
        'D' => 13nat,
        'E' => 14nat,
        'F' => 15nat,
        _ => 16nat,
    }
}

fn hex_value(c: char) -> (r: u8)
    ensures
        r == hex_val(c),
{
    match c {
        '0' => 0u8,
        '1' => 1u8,
        '2' => 2u8,
        '3' => 3u8,
        '4' => 4u8,
        '5' => 5u8,
        '6' => 6u8,
        '7' => 7u8,
        '8' => 8u8,
        '9' => 9u8,
        'a' => 10u8,
        'b' => 11u8,
        'c' => 12u8,
        'd' => 13u8,
        'e' => 14u8,
        'f' => 15u8,
        'A' => 10u8,
        'B' => 11u8,
        'C' => 12u8,
        'D' => 13u8,
        'E' => 14u8,
        'F' => 15u8,
        _ => 16u8,
    }
}

/// Percent-decoding, one character at a time: a valid %XX escape becomes a
/// byte, every other Latin-1 character passes through as its byte, and a
/// character beyond Latin-1 makes the input invalid.
pub open spec fn pct_step(s: Seq<char>, acc: Seq<u8>) -> Option<Seq<u8>>
    decreases s.len(),
{
    if s.len() == 0 {
        Some(acc)
    } else if s[0] == '%' && s.len() >= 3 && hex_val(s[1]) < 16 && hex_val(s[2]) < 16 {
        pct_step(s.skip(3), acc.push((hex_val(s[1]) * 16 + hex_val(s[2])) as u8))
    } else if (s[0] as nat) < 256 {
        pct_step(s.drop_first(), acc.push(s[0] as u8))
    } else {
        None
    }
}

/// The percent-decoded bytes of a text.
pub open spec fn percent_decoded(s: Seq<char>) -> Option<Seq<u8>> {
    pct_step(s, Seq::<u8>::empty())
}

pub fn percent_decode(s: &str) -> (r: Option<Vec<u8>>)
    ensures
        match r {
            Some(v) => percent_decoded(s@) == Some(v@),
            None => percent_decoded(s@) is None,
        },
{
    let len = s.unicode_len();
    let mut out: Vec<u8> = Vec::new();
    let mut i: usize = 0;
    proof {
        assert(s@.skip(0) =~= s@);
        assert(out@ =~= Seq::<u8>::empty());
    }
    while i < len
        invariant
            len == s@.len(),
            i <= len,
            percent_decoded(s@) == pct_step(s@.skip(i as int), out@),
        decreases len - i,
    {
        let ghost pre = s@.skip(i as int);
        proof {
            assert(pre[0] == s@[i as int]);
            assert(pre.drop_first() =~= s@.skip(i + 1));
        }
        let c = s.get_char(i);
        if c == '%' && len - i > 2 {
            let h1 = hex_value(s.get_char(i + 1));
            let h2 = hex_value(s.get_char(i + 2));
            if h1 < 16 && h2 < 16 {
                proof {
                    assert(pre.len() >= 3);
                    assert(pre[1] == s@[i + 1]);
                    assert(pre[2] == s@[i + 2]);
                    assert(pre.skip(3) =~= s@.skip(i + 3));
                }
                out.push(h1 * 16 + h2);
                i = i + 3;
                continue;
            }
        }
        let code = c as u32;
        if code < 256 {
            out.push(code as u8);
            proof {
                assert((pre[0] as nat) < 256);
                assert(out@.last() == pre[0] as u8);
            }
            i = i + 1;
        } else {
            proof {
                if pre[0] == '%' && pre.len() >= 3 && hex_val(pre[1]) < 16 && hex_val(pre[2])
                    < 16 {
                    assert(false);
                }
            }
            return None;
        }
    }
    proof {
        assert(s@.skip(len as int) =~= Seq::<char>::empty());
    }
    Some(out)
}

/// The ASCII whitespace the data-URL algorithm strips before base64.
pub open spec fn is_b64_ws(b: u8) -> bool {
    b == 9 || b == 10 || b == 12 || b == 13 || b == 32
}

/// The bytes with ASCII whitespace dropped, front to back.
pub open spec fn strip_ws_step(s: Seq<u8>, acc: Seq<u8>) -> Seq<u8>
    decreases s.len(),
{
    if s.len() == 0 {
        acc
    } else if is_b64_ws(s[0]) {
        strip_ws_step(s.drop_first(), acc)
    } else {
        strip_ws_step(s.drop_first(), acc.push(s[0]))
    }
}

pub open spec fn stripped_ws(s: Seq<u8>) -> Seq<u8> {
    strip_ws_step(s, Seq::<u8>::empty())
}

fn strip_ws(v: &Vec<u8>) -> (r: Vec<u8>)
    ensures
        r@ == stripped_ws(v@),
{
    let mut out: Vec<u8> = Vec::new();
    proof {
        assert(v@.skip(0) =~= v@);
        assert(out@ =~= Seq::<u8>::empty());
    }
    let mut i: usize = 0;
    while i < v.len()
        invariant
            i <= v@.len(),
            stripped_ws(v@) == strip_ws_step(v@.skip(i as int), out@),
        decreases v@.len() - i,
    {
        let ghost pre = v@.skip(i as int);
        proof {
            assert(pre[0] == v@[i as int]);
            assert(pre.drop_first() =~= v@.skip(i + 1));
        }
        let b = v[i];
        if !(b == 9 || b == 10 || b == 12 || b == 13 || b == 32) {
            out.push(b);
        }
        i = i + 1;
    }
    proof {
        assert(v@.skip(v@.len() as int) =~= Seq::<u8>::empty());
    }
    out
}

/// Percent-decoding of a path into text: a %XX escape of an ASCII byte
/// becomes that character, everything else passes through; an escape
/// beyond ASCII is refused, as text cannot carry the raw byte.
pub open spec fn path_step(s: Seq<char>, acc: Seq<char>) -> Option<Seq<char>>
    decreases s.len(),
{
    if s.len() == 0 {
        Some(acc)
    } else if s[0] == '%' && s.len() >= 3 && hex_val(s[1]) < 16 && hex_val(s[2]) < 16 {
        if hex_val(s[1]) * 16 + hex_val(s[2]) < 128 {
            path_step(s.skip(3), acc.push(((hex_val(s[1]) * 16 + hex_val(s[2])) as u8) as char))
        } else {
            None
        }
    } else {
        path_step(s.drop_first(), acc.push(s[0]))
    }
}

/// The percent-decoded text of a file path.
pub open spec fn path_decoded(s: Seq<char>) -> Option<Seq<char>> {
    path_step(s, Seq::<char>::empty())
}

pub fn percent_decode_path(s: &str) -> (r: Option<String>)
    ensures
        match r {
            Some(p) => path_decoded(s@) == Some(p@),
            None => path_decoded(s@) is None,
        },
{
    let len = s.unicode_len();
    let mut out = String::new();
    proof {
        assert(s@.skip(0) =~= s@);
        assert(out@ =~= Seq::<char>::empty());
    }
    let mut i: usize = 0;
    while i < len
        invariant
            len == s@.len(),
            i <= len,
            path_decoded(s@) == path_step(s@.skip(i as int), out@),
        decreases len - i,
    {
        let ghost pre = s@.skip(i as int);
        proof {
            assert(pre[0] == s@[i as int]);
            assert(pre.drop_first() =~= s@.skip(i + 1));
        }
        let c = s.get_char(i);
        if c == '%' && len - i > 2 {
            let h1 = hex_value(s.get_char(i + 1));
            let h2 = hex_value(s.get_char(i + 2));
            if h1 < 16 && h2 < 16 {
                proof {
                    assert(pre.len() >= 3);
                    assert(pre[1] == s@[i + 1]);
                    assert(pre[2] == s@[i + 2]);
                    assert(pre.skip(3) =~= s@.skip(i + 3));
                }
                let b: u8 = h1 * 16 + h2;
                if b < 128 {
                    push_char(&mut out, b as char);
                    i = i + 3;
                    continue;
                } else {
                    return None;
                }
            }
        }
        push_char(&mut out, c);
        proof {
            assert(out@.last() == pre[0]);
        }
        i = i + 1;
    }
    proof {
        assert(s@.skip(len as int) =~= Seq::<char>::empty());
    }
    Some(out)
}

/// Where the first comma stands, or the length when there is none.
pub open spec fn find_comma(s: Seq<char>) -> int
    decreases s.len(),
{
    if s.len() == 0 {
        0
    } else if s[0] == ',' {
        0
    } else {
        1 + find_comma(s.drop_first())
    }
}


/// The text a data: URL decodes: its path followed by its query.
pub open spec fn data_body(u: UrlModel) -> Seq<char> {
    u.path + (match u.query {
        Some(q) => seq!['?'] + q,
        None => Seq::<char>::empty(),
    })
}

/// What a data: URL denotes: the MIME type before the comma (text/plain
/// when empty), and the percent-decoded — and, under ;base64, stripped of
/// ASCII whitespace and base64-decoded — data after it. No comma, or bad
/// coding, is an error.
pub open spec fn data_decode(u: UrlModel) -> Option<(Seq<char>, Seq<u8>)> {
    let full = data_body(u);
    let k = find_comma(full);
    if k == full.len() {
        None
    } else {
        let meta = full.subrange(0, k);
        let is64 = meta.len() >= 7 && lower_seq(meta.skip(meta.len() - 7)) == lower_seq(
            ";base64"@,
        );
        let mime0 = if is64 {
            meta.subrange(0, meta.len() - 7)
        } else {
            meta
        };
        let mime = if mime0.len() == 0 {
            "text/plain;charset=US-ASCII"@
        } else {
            mime0
        };
        match pct_step(full.skip(k + 1), Seq::<u8>::empty()) {
            Some(bytes) => {
                if is64 {
                    match base64_decode_of(stripped_ws(bytes)) {
                        Some(b) => Some((mime, b)),
                        None => None,
                    }
                } else {
                    Some((mime, bytes))
                }
            },
            None => None,
        }
    }
}

/// Decodes a data: URL into its MIME type and its bytes.
pub fn decode_data_url(url: &Url) -> (r: Option<(String, Vec<u8>)>)
    ensures
        match r {
            Some(p) => data_decode(url.model()) == Some((p.0@, p.1@)),
            None => data_decode(url.model()) is None,
        },
{
    let mut full = String::new();
    full.append(url.path.as_str());
    match &url.query {
        Some(q) => {
            push_char(&mut full, '?');
            full.append(q.as_str());
        },
        None => {},
    }
    proof {
        assert(full@ =~= data_body(url.model()));
    }
    let len = full.as_str().unicode_len();
    let mut j: usize = 0;
    proof {
        assert(full@.skip(0) =~= full@);
    }
    while j < len && full.as_str().get_char(j) != ','
        invariant
            len == full@.len(),
            j <= len,
            find_comma(full@) == j + find_comma(full@.skip(j as int)),
        decreases len - j,
    {
        let ghost pre = full@.skip(j as int);
        proof {
            assert(pre[0] == full@[j as int]);
            assert(pre.drop_first() =~= full@.skip(j + 1));
        }
        j = j + 1;
    }
    proof {
        if j == len {
            assert(full@.skip(len as int) =~= Seq::<char>::empty());
        }
        assert(find_comma(full@) == j);
    }
    if j == len {
        return None;
    }
    let is64 = if j >= 7 {
        let suffix = full.as_str().substring_char(j - 7, j);
        proof {
            assert(suffix@ =~= full@.subrange(0, j as int).skip(j - 7));
        }
        str_eq_ci(suffix, ";base64")
    } else {
        false
    };
    let mime_end = if is64 {
        j - 7
    } else {
        j
    };
    let mime_part = full.as_str().substring_char(0, mime_end);
    proof {
        assert(mime_part@ =~= full@.subrange(0, j as int).subrange(0, mime_end as int));
        assert(full@.subrange(0, j as int).subrange(0, j as int) =~= full@.subrange(0, j as int));
    }
    let mime = if mime_part.unicode_len() == 0 {
        "text/plain;charset=US-ASCII".to_owned()
    } else {
        mime_part.to_owned()
    };
    let data_part = full.as_str().substring_char(j + 1, len);
    proof {
        assert(data_part@ =~= full@.skip(j + 1));
    }
    let bytes = match percent_decode(data_part) {
        Some(b) => b,
        None => {
            return None;
        },
    };
    if is64 {
        let cleaned = strip_ws(&bytes);
        match base64_decode(&cleaned) {
            Some(b) => Some((mime, b)),
            None => None,
        }
    } else {
        Some((mime, bytes))
    }
}

} // verus!
