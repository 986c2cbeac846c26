use vstd::prelude::*;
use vstd::string::*;
use vstd::arithmetic::div_mod::{lemma_div_denominator, lemma_fundamental_div_mod};
use vstd::arithmetic::power::{lemma_pow_positive, pow};

verus! {

/// A job identifier: an opaque 128-bit value.
#[derive(Clone, Copy, Debug, PartialEq, Eq, Hash, Structural)]
pub struct JobId {
    pub value: u128,
}

/// The lowercase character of a hexadecimal digit.
pub open spec fn hex_char(d: int) -> char {
    if d == 0 {
        '0'
    } else if d == 1 {
        '1'
    } else if d == 2 {
        '2'
    } else if d == 3 {
        '3'
    } else if d == 4 {
        '4'
    } else if d == 5 {
        '5'
    } else if d == 6 {
        '6'
    } else if d == 7 {
        '7'
    } else if d == 8 {
        '8'
    } else if d == 9 {
        '9'
    } else if d == 10 {
        'a'
    } else if d == 11 {
        'b'
    } else if d == 12 {
        'c'
    } else if d == 13 {
        'd'
    } else if d == 14 {
        'e'
    } else {
        'f'
    }
}

/// The hexadecimal digit of an identifier at place `i` of its 32, the most
/// significant being at place 0.
pub open spec fn hex_digit(value: u128, i: int) -> int {
    (value as int / pow(16, (31 - i) as nat)) % 16
}

/// The canonical form of an identifier: its 32 hexadecimal digits, most
/// significant first, in lower case and without separators.
pub open spec fn simple_hex(value: u128) -> Seq<char> {
    Seq::new(32, |i: int| hex_char(hex_digit(value, i)))
}

/// The marks of a randomly drawn identifier: the version digit, at place
/// 12, is 4, and the variant digit, at place 16, is 8, 9, a or b. The other
/// 122 bits are the random ones.
pub open spec fn drawn_at_random(value: u128) -> bool {
    hex_digit(value, 12) == 4 && 8 <= hex_digit(value, 16) <= 11
}

/// The identifier that a text denotes, if it denotes one. The accepted
/// notations are those of `uuid::Uuid::parse_str`.
pub uninterp spec fn parsed_uuid(text: Seq<char>) -> Option<u128>;

/// Calls `uuid::Uuid::parse_str` and hands out the value of the identifier
/// as an integer. Trusted: the result is a function of the text alone, which
/// `parsed_uuid` names.
#[verifier::external_body]
fn uuid_parse(text: &str) -> (r: Option<u128>)
    ensures
        r == parsed_uuid(text@),
{
    match uuid::Uuid::parse_str(text) {
        Ok(id) => Some(id.as_u128()),
        Err(_) => None,
    }
}

fn hex_str(d: u8) -> (r: &'static str)
    requires
        d < 16,
    ensures
        r@ == seq![hex_char(d as int)],
{
    proof {
        reveal_strlit("0");
        reveal_strlit("1");
        reveal_strlit("2");
        reveal_strlit("3");
        reveal_strlit("4");
        reveal_strlit("5");
        reveal_strlit("6");
        reveal_strlit("7");
        reveal_strlit("8");
        reveal_strlit("9");
        reveal_strlit("a");
        reveal_strlit("b");
        reveal_strlit("c");
        reveal_strlit("d");
        reveal_strlit("e");
        reveal_strlit("f");
    }
    let r: &'static str = if d == 0 {
        "0"
    } else if d == 1 {
        "1"
    } else if d == 2 {
        "2"
    } else if d == 3 {
        "3"
    } else if d == 4 {
        "4"
    } else if d == 5 {
        "5"
    } else if d == 6 {
        "6"
    } else if d == 7 {
        "7"
    } else if d == 8 {
        "8"
    } else if d == 9 {
        "9"
    } else if d == 10 {
        "a"
    } else if d == 11 {
        "b"
    } else if d == 12 {
        "c"
    } else if d == 13 {
        "d"
    } else if d == 14 {
        "e"
    } else {
        "f"
    };
    assert(r@ =~= seq![hex_char(d as int)]);
    r
}

/// Calls `uuid::Uuid::new_v4`, which draws sixteen random bytes from the
/// operating system and then sets the version to 4 in the high half of the
/// seventh byte and the variant to RFC 4122 in the two highest bits of the
/// ninth. Trusted: the value carries these two marks, whatever was drawn;
/// nothing is claimed of the other bits.
#[verifier::external_body]
fn uuid_random() -> (r: u128)
    ensures
        drawn_at_random(r),
{
    uuid::Uuid::new_v4().as_u128()
}

impl JobId {
    /// A randomly drawn identifier: a version 4 UUID of the RFC 4122
    /// variant, whose other bits are random.
    pub fn random() -> (r: JobId)
        ensures
            drawn_at_random(r.value),
    {
        JobId { value: uuid_random() }
    }

    /// The identifier that `text` denotes, if any.
    pub fn parse(text: &str) -> (r: Option<JobId>)
        ensures
            r == JobId::of_parsed(parsed_uuid(text@)),
    {
        JobId::from_parsed(uuid_parse(text))
    }

    pub open spec fn of_parsed(parsed: Option<u128>) -> Option<JobId> {
        match parsed {
            Some(value) => Some(JobId { value }),
            None => None,
        }
    }

    /// The identifier with the parsed value.
    pub fn from_parsed(parsed: Option<u128>) -> (r: Option<JobId>)
        ensures
            r == JobId::of_parsed(parsed),
    {
        match parsed {
            Some(value) => Some(JobId { value }),
            None => None,
        }
    }

    /// The canonical lowercase hexadecimal form.
    pub fn to_simple_string(&self) -> (r: String)
        ensures
            r@ == simple_hex(self.value),
    {
        let mut out: String = String::new();
        let mut place: u128 = 0x1000_0000_0000_0000_0000_0000_0000_0000;
        let mut i: usize = 0;
        proof {
            lemma_pow16_values();
        }
        while i < 32
            invariant
                i <= 32,
                i < 32 ==> place as int == pow(16, (31 - i) as nat),
                out@ == Seq::new(i as nat, |j: int| hex_char(hex_digit(self.value, j))),
            decreases 32 - i,
        {
            proof {
                lemma_pow_positive(16, (31 - i) as nat);
            }
            let d: u8 = ((self.value / place) % 16) as u8;
            out.append(hex_str(d));
            proof {
                assert(d as int == hex_digit(self.value, i as int));
                assert(out@ =~= Seq::new(
                    (i + 1) as nat,
                    |j: int| hex_char(hex_digit(self.value, j)),
                ));
            }
            if i < 31 {
                proof {
                    lemma_pow16_step((30 - i) as nat);
                }
                place = place / 16;
            }
            i = i + 1;
        }
        assert(out@ =~= simple_hex(self.value));
        out
    }
}

proof fn lemma_pow16_step(k: nat)
    ensures
        pow(16, k + 1) == 16 * pow(16, k),
        pow(16, k) > 0,
{
    reveal(pow);
    lemma_pow_positive(16, k);
}

proof fn lemma_pow16_values()
    ensures
        pow(16, 0) == 1,
        pow(16, 31) == 0x1000_0000_0000_0000_0000_0000_0000_0000,
        pow(16, 32) == 0x1_0000_0000_0000_0000_0000_0000_0000_0000,
{
    reveal_with_fuel(pow, 34);
}

/// The value above a place is sixteen times the value above the next
/// higher place, plus the digit at the place.
proof fn lemma_quotient_step(value: u128, k: nat)
    requires
        k < 32,
    ensures
        value as int / pow(16, k) == 16 * (value as int / pow(16, k + 1)) + hex_digit(
            value,
            31 - k,
        ),
{
    lemma_pow16_step(k);
    let p = pow(16, k);
    lemma_div_denominator(value as int, p, 16);
    assert(p * 16 == 16 * p);
    lemma_fundamental_div_mod(value as int / p, 16);
    assert((31 - (31 - k)) as nat == k);
}

proof fn lemma_digits_fix_value(a: u128, b: u128, k: nat)
    requires
        k <= 32,
        forall|i: int| 0 <= i < 32 ==> hex_digit(a, i) == hex_digit(b, i),
    ensures
        a as int / pow(16, k) == b as int / pow(16, k),
    decreases 32 - k,
{
    if k == 32 {
        lemma_pow16_values();
    } else {
        lemma_digits_fix_value(a, b, k + 1);
        lemma_quotient_step(a, k);
        lemma_quotient_step(b, k);
        assert(hex_digit(a, 31 - k) == hex_digit(b, 31 - k));
    }
}

/// Two identifiers with the same canonical form are the same identifier:
/// as texts, too, no two jobs share an id.
pub proof fn lemma_simple_hex_tells_ids_apart(a: JobId, b: JobId)
    requires
        simple_hex(a.value) == simple_hex(b.value),
    ensures
        a == b,
{
    assert forall|i: int| 0 <= i < 32 implies hex_digit(a.value, i) == hex_digit(b.value, i) by {
        lemma_pow_positive(16, (31 - i) as nat);
        assert(simple_hex(a.value)[i] == hex_char(hex_digit(a.value, i)));
        assert(simple_hex(b.value)[i] == hex_char(hex_digit(b.value, i)));
        assert(0 <= hex_digit(a.value, i) < 16);
        assert(0 <= hex_digit(b.value, i) < 16);
    }
    lemma_digits_fix_value(a.value, b.value, 0);
    lemma_pow16_values();
}

} // verus!
