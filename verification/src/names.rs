//! Deterministic names for dynamically exposed ports.
//!
//! An exposed port is named `{video|audio}_{sink|src}_{n}` where `n` comes
//! from the hub's per-(media type, direction) counter.  The rendering is
//! injective: two distinct (media type, direction, counter) triples never
//! collide on a name.

use vstd::prelude::*;
use crate::media::{Direction, MediaType};

verus! {

/// The decimal digit character for `d` (meaningful for `d < 10`).
pub open spec fn digit_char(d: nat) -> char {
    if d == 0 {
        '0'
    } else if d == 1 {
        '1'
    } else if d == 2 {
        '2'
    } else if d == 3 {
        '3'
    } else if d == 4 {
        '4'
    } else if d == 5 {
        '5'
    } else if d == 6 {
        '6'
    } else if d == 7 {
        '7'
    } else if d == 8 {
        '8'
    } else {
        '9'
    }
}

/// The decimal rendering of `n`, most significant digit first, without
/// leading zeros (except for `n == 0` itself).
pub open spec fn dec_digits(n: nat) -> Seq<char>
    decreases n,
{
    if n < 10 {
        seq![digit_char(n)]
    } else {
        dec_digits(n / 10).push(digit_char(n % 10))
    }
}

pub proof fn lemma_dec_digits_len(n: nat)
    ensures
        dec_digits(n).len() >= 1,
        n >= 10 ==> dec_digits(n).len() >= 2,
    decreases n,
{
    if n >= 10 {
        lemma_dec_digits_len(n / 10);
    }
}

pub proof fn lemma_digit_char_injective(a: nat, b: nat)
    requires
        a < 10,
        b < 10,
        digit_char(a) == digit_char(b),
    ensures
        a == b,
{
}

/// Two numbers with the same decimal rendering are equal.
pub proof fn lemma_dec_digits_injective(a: nat, b: nat)
    requires
        dec_digits(a) == dec_digits(b),
    ensures
        a == b,
    decreases a,
{
    lemma_dec_digits_len(a);
    lemma_dec_digits_len(b);
    if a < 10 && b < 10 {
        assert(dec_digits(a)[0] == digit_char(a));
        assert(dec_digits(b)[0] == digit_char(b));
        lemma_digit_char_injective(a, b);
    } else if a < 10 {
        assert(dec_digits(a).len() == 1);
        assert(dec_digits(b).len() >= 2);
    } else if b < 10 {
        assert(dec_digits(a).len() >= 2);
        assert(dec_digits(b).len() == 1);
    } else {
        let la = dec_digits(a).len();
        assert(dec_digits(a).last() == digit_char(a % 10));
        assert(dec_digits(b).last() == digit_char(b % 10));
        lemma_digit_char_injective(a % 10, b % 10);
        assert(dec_digits(a).drop_last() =~= dec_digits(a / 10));
        assert(dec_digits(b).drop_last() =~= dec_digits(b / 10));
        assert(dec_digits(a).drop_last() == dec_digits(b).drop_last());
        lemma_dec_digits_injective(a / 10, b / 10);
    }
}

/// The fixed name prefix for an exposed port of the given media type and
/// direction.
pub open spec fn name_prefix(media: MediaType, dir: Direction) -> Seq<char> {
    match (media, dir) {
        (MediaType::Video, Direction::Input) => "video_sink_"@,
        (MediaType::Video, Direction::Output) => "video_src_"@,
        (MediaType::Audio, Direction::Input) => "audio_sink_"@,
        (MediaType::Audio, Direction::Output) => "audio_src_"@,
    }
}

/// The full name of the `n`-th exposed port of the given media type and
/// direction.
pub open spec fn port_name_seq(media: MediaType, dir: Direction, n: nat) -> Seq<char> {
    name_prefix(media, dir) + dec_digits(n)
}

proof fn lemma_reveal_prefixes()
    ensures
        name_prefix(MediaType::Video, Direction::Input).len() == 11,
        name_prefix(MediaType::Video, Direction::Output).len() == 10,
        name_prefix(MediaType::Audio, Direction::Input).len() == 11,
        name_prefix(MediaType::Audio, Direction::Output).len() == 10,
        name_prefix(MediaType::Video, Direction::Input)[0] == 'v',
        name_prefix(MediaType::Video, Direction::Output)[0] == 'v',
        name_prefix(MediaType::Audio, Direction::Input)[0] == 'a',
        name_prefix(MediaType::Audio, Direction::Output)[0] == 'a',
        name_prefix(MediaType::Video, Direction::Input)[7] == 'i',
        name_prefix(MediaType::Video, Direction::Output)[7] == 'r',
        name_prefix(MediaType::Audio, Direction::Input)[7] == 'i',
        name_prefix(MediaType::Audio, Direction::Output)[7] == 'r',
{
    reveal_strlit("video_sink_");
    reveal_strlit("video_src_");
    reveal_strlit("audio_sink_");
    reveal_strlit("audio_src_");
}

/// Distinct (media type, direction, counter) triples yield distinct names.
pub proof fn lemma_port_name_injective(
    m1: MediaType,
    d1: Direction,
    n1: nat,
    m2: MediaType,
    d2: Direction,
    n2: nat,
)
    requires
        port_name_seq(m1, d1, n1) == port_name_seq(m2, d2, n2),
    ensures
        m1 == m2,
        d1 == d2,
        n1 == n2,
{
    lemma_reveal_prefixes();
    lemma_dec_digits_len(n1);
    lemma_dec_digits_len(n2);
    let p1 = name_prefix(m1, d1);
    let p2 = name_prefix(m2, d2);
    let s1 = dec_digits(n1);
    let s2 = dec_digits(n2);
    assert((p1 + s1)[0] == p1[0]);
    assert((p2 + s2)[0] == p2[0]);
    assert((p1 + s1)[7] == p1[7]);
    assert((p2 + s2)[7] == p2[7]);
    assert(m1 == m2 && d1 == d2);
    assert(s1 =~= (p1 + s1).subrange(p1.len() as int, (p1 + s1).len() as int));
    assert(s2 =~= (p2 + s2).subrange(p2.len() as int, (p2 + s2).len() as int));
    lemma_dec_digits_injective(n1, n2);
}

/// The digit `d` as a one-character string slice.
fn digit_str(d: u32) -> (r: &'static str)
    requires
        d < 10,
    ensures
        r@ == seq![digit_char(d as nat)],
{
    proof {
        reveal_strlit("0");
        reveal_strlit("1");
        reveal_strlit("2");
        reveal_strlit("3");
        reveal_strlit("4");
        reveal_strlit("5");
        reveal_strlit("6");
        reveal_strlit("7");
        reveal_strlit("8");
        reveal_strlit("9");
    }
    let r = if d == 0 {
        "0"
    } else if d == 1 {
        "1"
    } else if d == 2 {
        "2"
    } else if d == 3 {
        "3"
    } else if d == 4 {
        "4"
    } else if d == 5 {
        "5"
    } else if d == 6 {
        "6"
    } else if d == 7 {
        "7"
    } else if d == 8 {
        "8"
    } else {
        "9"
    };
    proof {
        assert(r@ =~= seq![digit_char(d as nat)]);
    }
    r
}

/// Renders `n` in decimal.
pub fn dec_string(n: u32) -> (s: String)
    ensures
        s@ == dec_digits(n as nat),
    decreases n,
{
    if n < 10 {
        String::from_str(digit_str(n))
    } else {
        let mut s = dec_string(n / 10);
        s.append(digit_str(n % 10));
        proof {
            assert(s@ =~= dec_digits(n as nat));
        }
        s
    }
}

/// Builds the exposed-port name for the given triple.
pub fn port_name(media: MediaType, dir: Direction, n: u32) -> (s: String)
    ensures
        s@ == port_name_seq(media, dir, n as nat),
{
    let mut s = match (media, dir) {
        (MediaType::Video, Direction::Input) => String::from_str("video_sink_"),
        (MediaType::Video, Direction::Output) => String::from_str("video_src_"),
        (MediaType::Audio, Direction::Input) => String::from_str("audio_sink_"),
        (MediaType::Audio, Direction::Output) => String::from_str("audio_src_"),
    };
    let digits = dec_string(n);
    s.append(digits.as_str());
    s
}

/// Character-wise string comparison, specified against the views.
pub fn str_eq(a: &str, b: &str) -> (r: bool)
    ensures
        r == (a@ == b@),
{
    let la = a.unicode_len();
    let lb = b.unicode_len();
    if la != lb {
        return false;
    }
    let mut i: usize = 0;
    while i < la
        invariant
            la == a@.len(),
            la == b@.len(),
            i <= la,
            forall|j: int| 0 <= j < i ==> a@[j] == b@[j],
        decreases la - i,
    {
        if a.get_char(i) != b.get_char(i) {
            return false;
        }
        i += 1;
    }
    proof {
        assert(a@ =~= b@);
    }
    true
}

} // verus!
