use vstd::prelude::*;

verus! {

/// The big-endian word formed by bytes `2 * i` and `2 * i + 1` of `bytes`.
pub open spec fn word_at(bytes: Seq<u8>, i: int) -> u16 {
    (bytes[2 * i] as int * 256 + bytes[2 * i + 1] as int) as u16
}

/// The words of a byte stream read two bytes at a time, big-endian; a trailing odd byte is dropped.
pub open spec fn words_of(bytes: Seq<u8>) -> Seq<u16> {
    Seq::new(bytes.len() / 2, |i: int| word_at(bytes, i))
}

/// Turns a big-endian byte stream into words.
pub fn u8_to_u16(v: Vec<u8>) -> (r: Vec<u16>)
    ensures
        r@ == words_of(v@),
{
    let len = v.len();
    let n = len / 2;
    let mut result: Vec<u16> = Vec::new();
    let mut i: usize = 0;
    while i < n
        invariant
            len == v@.len(),
            n == v@.len() / 2,
            i <= n,
            result@ == words_of(v@).take(i as int),
        decreases n - i,
    {
        proof {
            assert(2 * i + 1 < v@.len()) by (nonlinear_arith)
                requires
                    i < v@.len() / 2,
            ;
        }
        let j: usize = 2 * i;
        let hi: u16 = v[j] as u16;
        let lo: u16 = v[j + 1] as u16;
        let w: u16 = hi * 256 + lo;
        result.push(w);
        i += 1;
        proof {
            assert(result@ =~= words_of(v@).take(i as int));
        }
    }
    proof {
        assert(result@ =~= words_of(v@));
    }
    result
}

/// Splits a program image into its load address (its first two bytes, big-endian) and
/// its body words; `None` when the image is too short to hold a load address.
pub fn parse_image(bytes: &Vec<u8>) -> (r: Option<(u16, Vec<u16>)>)
    ensures
        bytes@.len() < 2 ==> r is None,
        bytes@.len() >= 2 ==> (r matches Some((start, body)) && start == word_at(bytes@, 0)
            && body@ == words_of(bytes@.skip(2))),
{
    if bytes.len() < 2 {
        return None;
    }
    let mut rest: Vec<u8> = Vec::new();
    let mut i: usize = 2;
    while i < bytes.len()
        invariant
            2 <= i <= bytes@.len(),
            rest@ == bytes@.subrange(2, i as int),
        decreases bytes@.len() - i,
    {
        rest.push(bytes[i]);
        i += 1;
        proof {
            assert(rest@ =~= bytes@.subrange(2, i as int));
        }
    }
    proof {
        assert(rest@ =~= bytes@.skip(2));
    }
    let start: u16 = (bytes[0] as u16) * 256 + bytes[1] as u16;
    Some((start, u8_to_u16(rest)))
}

} // verus!
