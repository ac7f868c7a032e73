use vstd::prelude::*;
use vstd::string::StringExecFns;
use vstd::string::StringSliceAdditionalSpecFns;

verus! {

/// Character for one hexadecimal digit; also the decimal digits 0..9.
pub open spec fn spec_hex_digit(n: int) -> char {
    if n == 0 {
        '0'
    } else if n == 1 {
        '1'
    } else if n == 2 {
        '2'
    } else if n == 3 {
        '3'
    } else if n == 4 {
        '4'
    } else if n == 5 {
        '5'
    } else if n == 6 {
        '6'
    } else if n == 7 {
        '7'
    } else if n == 8 {
        '8'
    } else if n == 9 {
        '9'
    } else if n == 10 {
        'a'
    } else if n == 11 {
        'b'
    } else if n == 12 {
        'c'
    } else if n == 13 {
        'd'
    } else if n == 14 {
        'e'
    } else if n == 15 {
        'f'
    } else {
        '?'
    }
}

/// Hexadecimal rendering of a byte sequence, two digits per byte.
pub open spec fn spec_hex(s: Seq<u8>) -> Seq<char>
    decreases s.len(),
{
    if s.len() == 0 {
        Seq::empty()
    } else {
        spec_hex(s.drop_last()) + seq![
            spec_hex_digit(s.last() as int / 16),
            spec_hex_digit(s.last() as int % 16),
        ]
    }
}

/// Decimal rendering of a non-negative integer, most significant digit first.
pub open spec fn spec_dec(n: int) -> Seq<char>
    decreases n,
{
    if n < 10 {
        seq![spec_hex_digit(n)]
    } else {
        spec_dec(n / 10) + seq![spec_hex_digit(n % 10)]
    }
}

/// The byte sequence holds "new" somewhere.
pub open spec fn spec_contains_new(b: Seq<u8>) -> bool {
    exists|i: int| 0 <= i && i + 3 <= b.len() && #[trigger] b[i] == 110 && b[i + 1] == 101 && b[i + 2] == 119
}

pub fn hex_digit(n: u8) -> (r: &'static str)
    requires
        n < 16,
    ensures
        r@ =~= seq![spec_hex_digit(n as int)],
{
    if n == 0 {
        proof { reveal_strlit("0"); }
        "0"
    } else if n == 1 {
        proof { reveal_strlit("1"); }
        "1"
    } else if n == 2 {
        proof { reveal_strlit("2"); }
        "2"
    } else if n == 3 {
        proof { reveal_strlit("3"); }
        "3"
    } else if n == 4 {
        proof { reveal_strlit("4"); }
        "4"
    } else if n == 5 {
        proof { reveal_strlit("5"); }
        "5"
    } else if n == 6 {
        proof { reveal_strlit("6"); }
        "6"
    } else if n == 7 {
        proof { reveal_strlit("7"); }
        "7"
    } else if n == 8 {
        proof { reveal_strlit("8"); }
        "8"
    } else if n == 9 {
        proof { reveal_strlit("9"); }
        "9"
    } else if n == 10 {
        proof { reveal_strlit("a"); }
        "a"
    } else if n == 11 {
        proof { reveal_strlit("b"); }
        "b"
    } else if n == 12 {
        proof { reveal_strlit("c"); }
        "c"
    } else if n == 13 {
        proof { reveal_strlit("d"); }
        "d"
    } else if n == 14 {
        proof { reveal_strlit("e"); }
        "e"
    } else {
        proof { reveal_strlit("f"); }
        "f"
    }
}

pub fn hex_of(mem: &[u8]) -> (r: String)
    ensures
        r@ == spec_hex(mem@),
{
    let mut r = String::new();
    let mut i: usize = 0;
    while i < mem.len()
        invariant
            i <= mem@.len(),
            r@ == spec_hex(mem@.subrange(0, i as int)),
        decreases mem@.len() - i,
    {
        let b = mem[i];
        r.append(hex_digit(b / 16));
        r.append(hex_digit(b % 16));
        proof {
            assert(mem@.subrange(0, i + 1).drop_last() =~= mem@.subrange(0, i as int));
            assert(mem@.subrange(0, i + 1).last() == mem@[i as int]);
        }
        i += 1;
    }
    proof {
        assert(mem@.subrange(0, mem@.len() as int) =~= mem@);
    }
    r
}

pub fn dec_of(n: u64) -> (r: String)
    ensures
        r@ == spec_dec(n as int),
    decreases n,
{
    if n < 10 {
        hex_digit(n as u8).to_owned()
    } else {
        let mut s = dec_of(n / 10);
        s.append(hex_digit((n % 10) as u8));
        s
    }
}

pub fn contains_new(s: &str) -> (r: bool)
    ensures
        r == spec_contains_new(s.spec_bytes()),
{
    let b = s.as_bytes();
    let mut i: usize = 0;
    if b.len() < 3 {
        return false;
    }
    while i <= b.len() - 3
        invariant
            b@ == s.spec_bytes(),
            3 <= b@.len(),
            i <= b@.len(),
            forall|j: int|
                0 <= j < i ==> !(#[trigger] b@[j] == 110 && b@[j + 1] == 101 && b@[j + 2] == 119),
        decreases b@.len() - i,
    {
        if b[i] == 110 && b[i + 1] == 101 && b[i + 2] == 119 {
            return true;
        }
        i += 1;
    }
    false
}

} // verus!
