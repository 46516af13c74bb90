//! Percent-decoding of URL-encoded text, at the byte level: a `%` followed
//! by two hexadecimal digits stands for one byte; anything else stands for
//! itself.

use vstd::prelude::*;

verus! {

/// The value of an ASCII hexadecimal digit, or nothing.
pub open spec fn hex_val(b: u8) -> Option<u8> {
    if 48 <= b <= 57 {
        Some((b - 48) as u8)
    } else if 65 <= b <= 70 {
        Some((b - 55) as u8)
    } else if 97 <= b <= 102 {
        Some((b - 87) as u8)
    } else {
        None
    }
}

/// True when a valid `%XX` escape starts at index `i` of `s`.
pub open spec fn escape_at(s: Seq<u8>, i: int) -> bool {
    0 <= i && i + 3 <= s.len() && s[i] == 37 && hex_val(s[i + 1]) is Some && hex_val(s[i + 2]) is Some
}

/// The decoded form of `s`: every valid `%XX` escape is replaced by its
/// byte, every other byte is kept as it is.
pub open spec fn spec_decode(s: Seq<u8>) -> Seq<u8>
    decreases s.len(),
{
    if s.len() == 0 {
        Seq::empty()
    } else if escape_at(s, 0) {
        seq![(hex_val(s[1]).unwrap() * 16 + hex_val(s[2]).unwrap()) as u8] + spec_decode(s.skip(3))
    } else {
        seq![s[0]] + spec_decode(s.skip(1))
    }
}

/// The value of an ASCII hexadecimal digit, or nothing.
pub fn hex_digit(b: u8) -> (r: Option<u8>)
    ensures
        r == hex_val(b),
{
    if 48 <= b && b <= 57 {
        Some(b - 48)
    } else if 65 <= b && b <= 70 {
        Some(b - 55)
    } else if 97 <= b && b <= 102 {
        Some(b - 87)
    } else {
        None
    }
}

/// Percent-decodes `h`.
pub fn decode(h: &[u8]) -> (r: Vec<u8>)
    ensures
        r@ == spec_decode(h@),
{
    let hlen = h.len();
    let mut r: Vec<u8> = Vec::new();
    let mut i: usize = 0;
    proof {
        assert(h@.skip(0) =~= h@);
        assert(Seq::<u8>::empty() + spec_decode(h@) =~= spec_decode(h@));
    }
    while i < h.len()
        invariant
            h@.len() == hlen,
            0 <= i <= h@.len(),
            spec_decode(h@) == r@ + spec_decode(h@.skip(i as int)),
        decreases h@.len() - i,
    {
        let ghost tail = h@.skip(i as int);
        proof {
            assert(tail[0] == h@[i as int]);
        }
        if h.len() - i >= 3 && h[i] == 37 {
            let d1 = hex_digit(h[i + 1]);
            let d2 = hex_digit(h[i + 2]);
            match (d1, d2) {
                (Some(x), Some(y)) => {
                    proof {
                        assert(tail[1] == h@[i + 1]);
                        assert(tail[2] == h@[i + 2]);
                        assert(escape_at(tail, 0));
                        assert(tail.skip(3) =~= h@.skip(i + 3));
                    }
                    r.push(x * 16 + y);
                    i = i + 3;
                },
                _ => {
                    proof {
                        assert(!escape_at(tail, 0));
                        assert(tail.skip(1) =~= h@.skip(i + 1));
                    }
                    r.push(h[i]);
                    i = i + 1;
                },
            }
        } else {
            proof {
                assert(!escape_at(tail, 0));
                assert(tail.skip(1) =~= h@.skip(i + 1));
            }
            r.push(h[i]);
            i = i + 1;
        }
    }
    proof {
        assert(h@.skip(h@.len() as int) =~= Seq::<u8>::empty());
    }
    r
}

/// `s` with every `+` replaced by a space, the form-encoding convention for
/// values.
pub open spec fn spec_plus_to_space(s: Seq<u8>) -> Seq<u8> {
    s.map_values(|b: u8| if b == 43 { 32u8 } else { b })
}

/// Replaces every `+` in `h` by a space.
pub fn plus_to_space(h: &[u8]) -> (r: Vec<u8>)
    ensures
        r@ == spec_plus_to_space(h@),
{
    let mut r: Vec<u8> = Vec::new();
    let mut i: usize = 0;
    while i < h.len()
        invariant
            0 <= i <= h@.len(),
            r@ == spec_plus_to_space(h@.subrange(0, i as int)),
        decreases h@.len() - i,
    {
        if h[i] == 43 {
            r.push(32);
        } else {
            r.push(h[i]);
        }
        proof {
            assert(spec_plus_to_space(h@.subrange(0, i + 1)) =~= spec_plus_to_space(
                h@.subrange(0, i as int),
            ).push(if h@[i as int] == 43 {
                32u8
            } else {
                h@[i as int]
            }));
        }
        i = i + 1;
    }
    proof {
        assert(h@.subrange(0, h@.len() as int) =~= h@);
    }
    r
}

} // verus!
