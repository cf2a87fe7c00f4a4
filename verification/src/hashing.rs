//! Content hashing for change detection. The liked-songs collection has no
//! server-side snapshot token, so its snapshot is a SHA-256 digest, in hex,
//! of the sorted track ids.

use vstd::prelude::*;

use sha2::Digest;
use vstd::utf8::encode_utf8;

verus! {

/// The SHA-256 digest of a byte sequence, named but not written out: the
/// trusted wrapper below is the only thing that speaks for it.
pub uninterp spec fn sha256_of(data: Seq<u8>) -> Seq<u8>;

/// Relies on `sha2::Sha256`: the digest is 32 bytes and is a function of the
/// input bytes alone.
#[verifier::external_body]
pub(crate) fn sha256_digest(data: &[u8]) -> (r: Vec<u8>)
    ensures
        r@ == sha256_of(data@),
        r@.len() == 32,
{
    sha2::Sha256::digest(data).to_vec()
}

/// The lower-case hex character of a nibble.
pub open spec fn hex_digit(n: u8) -> char {
    if n == 0 {
        '0'
    } else if n == 1 {
        '1'
    } else if n == 2 {
        '2'
    } else if n == 3 {
        '3'
    } else if n == 4 {
        '4'
    } else if n == 5 {
        '5'
    } else if n == 6 {
        '6'
    } else if n == 7 {
        '7'
    } else if n == 8 {
        '8'
    } else if n == 9 {
        '9'
    } else if n == 10 {
        'a'
    } else if n == 11 {
        'b'
    } else if n == 12 {
        'c'
    } else if n == 13 {
        'd'
    } else if n == 14 {
        'e'
    } else {
        'f'
    }
}

/// Lower-case hex encoding of a byte sequence, two characters per byte.
pub open spec fn spec_to_hex_lower(data: Seq<u8>) -> Seq<char>
    decreases data.len(),
{
    if data.len() == 0 {
        Seq::empty()
    } else {
        seq![hex_digit(data[0] / 16), hex_digit(data[0] % 16)] + spec_to_hex_lower(
            data.drop_first(),
        )
    }
}

/// The one-character string of a nibble's hex digit.
fn hex_str(n: u8) -> (r: &'static str)
    requires
        n < 16,
    ensures
        r@ =~= seq![hex_digit(n)],
{
    proof {
        reveal_strlit("0");
        reveal_strlit("1");
        reveal_strlit("2");
        reveal_strlit("3");
        reveal_strlit("4");
        reveal_strlit("5");
        reveal_strlit("6");
        reveal_strlit("7");
        reveal_strlit("8");
        reveal_strlit("9");
        reveal_strlit("a");
        reveal_strlit("b");
        reveal_strlit("c");
        reveal_strlit("d");
        reveal_strlit("e");
        reveal_strlit("f");
    }
    match n {
        0 => "0",
        1 => "1",
        2 => "2",
        3 => "3",
        4 => "4",
        5 => "5",
        6 => "6",
        7 => "7",
        8 => "8",
        9 => "9",
        10 => "a",
        11 => "b",
        12 => "c",
        13 => "d",
        14 => "e",
        _ => "f",
    }
}

/// Encode bytes as lower-case hex text.
pub fn to_hex_lower(data: &Vec<u8>) -> (r: String)
    ensures
        r@ == spec_to_hex_lower(data@),
{
    let mut r = String::new();
    let n = data.len();
    proof {
        assert(data@.skip(0) =~= data@);
        assert(r@ + spec_to_hex_lower(data@) =~= spec_to_hex_lower(data@));
    }
    for i in 0..n
        invariant
            n == data@.len(),
            r@ + spec_to_hex_lower(data@.skip(i as int)) =~= spec_to_hex_lower(data@),
    {
        let b = data[i];
        proof {
            assert(data@.skip(i as int)[0] == data@[i as int]);
            assert(data@.skip(i as int).drop_first() =~= data@.skip(i + 1));
        }
        r.append(hex_str(b / 16));
        r.append(hex_str(b % 16));
        proof {
            assert(r@ + spec_to_hex_lower(data@.skip(i + 1)) =~= spec_to_hex_lower(data@));
        }
    }
    proof {
        assert(data@.skip(n as int) =~= Seq::<u8>::empty());
        assert(r@ =~= spec_to_hex_lower(data@));
    }
    r
}

/// The byte stream hashed for a list of ids: each id's UTF-8 bytes followed
/// by a `|` delimiter (byte 124).
pub open spec fn spec_joined_ids(ids: Seq<Seq<char>>) -> Seq<u8>
    decreases ids.len(),
{
    if ids.len() == 0 {
        Seq::empty()
    } else {
        encode_utf8(ids[0]) + seq![124u8] + spec_joined_ids(ids.drop_first())
    }
}

/// Join owned id strings into the delimited byte stream.
pub fn joined_bytes(ids: &Vec<String>) -> (r: Vec<u8>)
    ensures
        r@ == spec_joined_ids(ids.deep_view()),
{
    let mut out: Vec<u8> = Vec::new();
    let n = ids.len();
    proof {
        assert(ids.deep_view().skip(0) =~= ids.deep_view());
        assert(out@ + spec_joined_ids(ids.deep_view()) =~= spec_joined_ids(ids.deep_view()));
    }
    for i in 0..n
        invariant
            n == ids@.len(),
            ids.deep_view().len() == n,
            out@ + spec_joined_ids(ids.deep_view().skip(i as int)) =~= spec_joined_ids(
                ids.deep_view(),
            ),
    {
        proof {
            assert(ids.deep_view()[i as int] == ids@[i as int]@);
            assert(ids.deep_view().skip(i as int)[0] == ids.deep_view()[i as int]);
            assert(ids.deep_view().skip(i as int).drop_first() =~= ids.deep_view().skip(i + 1));
        }
        let mut bs = ids[i].as_str().as_bytes_vec();
        proof {
            assert(bs@ == encode_utf8(ids@[i as int]@));
        }
        out.append(&mut bs);
        out.push(124);
        proof {
            assert(out@ + spec_joined_ids(ids.deep_view().skip(i + 1)) =~= spec_joined_ids(
                ids.deep_view(),
            ));
        }
    }
    proof {
        assert(ids.deep_view().skip(n as int) =~= Seq::<Seq<char>>::empty());
        assert(out@ =~= spec_joined_ids(ids.deep_view()));
    }
    out
}

} // verus!
