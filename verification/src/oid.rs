//! Document identifiers: a 12-byte binary value conventionally rendered as
//! a 24-character lowercase hex string, held here as two plain integers (the
//! high 4 bytes and the low 8 bytes). Rendering and parsing are verified
//! inverses of one another; a string that is not exactly 24 hex characters
//! is rejected as a `BadRequest` before any store call.

use vstd::prelude::*;

use crate::errors::Error;

verus! {

/// A document identifier, assigned by the store on creation and immutable
/// thereafter. `hi` holds the high 4 bytes, `lo` the low 8 bytes of the
/// 12-byte value.
#[derive(Clone, Copy, PartialEq, Eq, Structural, Debug)]
pub struct ObjectId {
    pub hi: u32,
    pub lo: u64,
}

/// Whether `c` is a lowercase hex digit.
pub open spec fn is_hex_digit(c: char) -> bool {
    (48 <= c as u32 && c as u32 <= 57) || (97 <= c as u32 && c as u32 <= 102)
}

/// The lowercase hex digit for a value below 16.
pub open spec fn hex_char_of(n: int) -> char {
    if n == 0 {
        '0'
    } else if n == 1 {
        '1'
    } else if n == 2 {
        '2'
    } else if n == 3 {
        '3'
    } else if n == 4 {
        '4'
    } else if n == 5 {
        '5'
    } else if n == 6 {
        '6'
    } else if n == 7 {
        '7'
    } else if n == 8 {
        '8'
    } else if n == 9 {
        '9'
    } else if n == 10 {
        'a'
    } else if n == 11 {
        'b'
    } else if n == 12 {
        'c'
    } else if n == 13 {
        'd'
    } else if n == 14 {
        'e'
    } else {
        'f'
    }
}

/// The value of a hex digit.
pub open spec fn hex_val_of(c: char) -> int {
    if 48 <= c as u32 && c as u32 <= 57 {
        c as u32 - 48
    } else {
        c as u32 - 87
    }
}

/// The last `n` hex digits of `v`, most significant first.
pub open spec fn hex_seq(v: nat, n: nat) -> Seq<char>
    decreases n,
{
    if n == 0 {
        Seq::empty()
    } else {
        hex_seq(v / 16, (n - 1) as nat).push(hex_char_of((v % 16) as int))
    }
}

/// The value of a sequence of hex digits, most significant first.
pub open spec fn hex_value(s: Seq<char>) -> nat
    decreases s.len(),
{
    if s.len() == 0 {
        0nat
    } else {
        (hex_value(s.drop_last()) * 16 + hex_val_of(s.last())) as nat
    }
}

/// 16 to the `n`.
pub open spec fn pow16(n: nat) -> nat
    decreases n,
{
    if n == 0 {
        1nat
    } else {
        16 * pow16((n - 1) as nat)
    }
}

/// Whether `s` is a well-formed rendered identifier: exactly 24 hex digits.
pub open spec fn is_hex24(s: Seq<char>) -> bool {
    s.len() == 24 && (forall|i: int| 0 <= i < 24 ==> is_hex_digit(#[trigger] s[i]))
}

/// What an identifier renders as: its 24 hex digits.
pub open spec fn spec_hex24(id: ObjectId) -> Seq<char> {
    hex_seq(id.hi as nat, 8) + hex_seq(id.lo as nat, 16)
}

/// Rendering yields `n` digits, each a hex digit.
pub proof fn lemma_hex_seq_wf(v: nat, n: nat)
    ensures
        hex_seq(v, n).len() == n,
        forall|i: int| 0 <= i < n ==> is_hex_digit(#[trigger] hex_seq(v, n)[i]),
    decreases n,
{
    if n > 0 {
        lemma_hex_seq_wf(v / 16, (n - 1) as nat);
        assert(is_hex_digit(hex_char_of((v % 16) as int)));
    }
}

/// Reading back what was rendered gives the value, as long as it fits.
pub proof fn lemma_hex_value_of_hex_seq(v: nat, n: nat)
    requires
        v < pow16(n),
    ensures
        hex_value(hex_seq(v, n)) == v,
    decreases n,
{
    if n == 0 {
    } else {
        let s = hex_seq(v, n);
        lemma_hex_seq_wf(v / 16, (n - 1) as nat);
        assert(s.drop_last() =~= hex_seq(v / 16, (n - 1) as nat));
        assert(v / 16 < pow16((n - 1) as nat)) by {
            assert(pow16(n) == 16 * pow16((n - 1) as nat));
        };
        lemma_hex_value_of_hex_seq(v / 16, (n - 1) as nat);
        assert(hex_val_of(hex_char_of((v % 16) as int)) == v % 16);
        assert((v / 16) * 16 + v % 16 == v) by (nonlinear_arith);
    }
}

/// Rendering what was read gives back the digits.
pub proof fn lemma_hex_seq_of_hex_value(s: Seq<char>)
    requires
        forall|i: int| 0 <= i < s.len() ==> is_hex_digit(#[trigger] s[i]),
    ensures
        hex_value(s) < pow16(s.len()),
        hex_seq(hex_value(s), s.len()) =~= s,
    decreases s.len(),
{
    if s.len() == 0 {
    } else {
        let rest = s.drop_last();
        assert(forall|i: int| 0 <= i < rest.len() ==> is_hex_digit(#[trigger] rest[i]));
        lemma_hex_seq_of_hex_value(rest);
        let p = hex_value(rest);
        let d = hex_val_of(s.last());
        assert(is_hex_digit(s.last()));
        assert(0 <= d < 16);
        assert(hex_value(s) == p * 16 + d);
        assert(p * 16 + d < pow16(s.len())) by {
            assert(p <= pow16(rest.len()) - 1);
            assert(p * 16 <= (pow16(rest.len()) - 1) * 16) by (nonlinear_arith)
                requires
                    p <= pow16(rest.len()) - 1,
            ;
            assert(pow16(s.len()) == 16 * pow16(rest.len()));
        };
        assert((p * 16 + d) / 16 == p && (p * 16 + d) % 16 == d) by (nonlinear_arith)
            requires
                0 <= d < 16,
                p >= 0,
        ;
        lemma_hex_roundtrip(s.last());
        assert(hex_seq(hex_value(s), s.len()) =~= hex_seq(p, rest.len()).push(s.last()));
    }
}

/// A hex digit is exactly determined by its value.
pub proof fn lemma_hex_roundtrip(c: char)
    requires
        is_hex_digit(c),
    ensures
        hex_char_of(hex_val_of(c)) == c,
{
    let u = c as u32;
    assert(c as int == u as int);
    if u == 48 {
        assert(c == '0');
    }
    if u == 49 {
        assert(c == '1');
    }
    if u == 50 {
        assert(c == '2');
    }
    if u == 51 {
        assert(c == '3');
    }
    if u == 52 {
        assert(c == '4');
    }
    if u == 53 {
        assert(c == '5');
    }
    if u == 54 {
        assert(c == '6');
    }
    if u == 55 {
        assert(c == '7');
    }
    if u == 56 {
        assert(c == '8');
    }
    if u == 57 {
        assert(c == '9');
    }
    if u == 97 {
        assert(c == 'a');
    }
    if u == 98 {
        assert(c == 'b');
    }
    if u == 99 {
        assert(c == 'c');
    }
    if u == 100 {
        assert(c == 'd');
    }
    if u == 101 {
        assert(c == 'e');
    }
    if u == 102 {
        assert(c == 'f');
    }
}

/// The identifier a well-formed 24-hex-digit string denotes.
pub open spec fn spec_oid_of(s: Seq<char>) -> ObjectId {
    choose|oid: ObjectId| spec_hex24(oid) == s
}

/// A well-formed 24-hex-digit string denotes exactly one identifier.
pub proof fn lemma_oid_of_hex24(s: Seq<char>)
    requires
        is_hex24(s),
    ensures
        spec_hex24(spec_oid_of(s)) == s,
{
    let a = s.subrange(0, 8);
    let b = s.subrange(8, 24);
    lemma_hex_seq_of_hex_value(a);
    lemma_hex_seq_of_hex_value(b);
    lemma_pow16_values();
    let w = ObjectId { hi: hex_value(a) as u32, lo: hex_value(b) as u64 };
    assert(spec_hex24(w) =~= a + b);
    assert(a + b =~= s);
    assert(exists|oid: ObjectId| spec_hex24(oid) == s);
}

/// A rendered identifier is 24 hex digits.
pub proof fn lemma_hex24_wf(id: ObjectId)
    ensures
        is_hex24(spec_hex24(id)),
{
    lemma_hex_seq_wf(id.hi as nat, 8);
    lemma_hex_seq_wf(id.lo as nat, 16);
}

/// Two identifiers that render alike are alike.
pub proof fn lemma_hex24_injective(a: ObjectId, b: ObjectId)
    requires
        spec_hex24(a) == spec_hex24(b),
    ensures
        a == b,
{
    lemma_hex_seq_wf(a.hi as nat, 8);
    lemma_hex_seq_wf(a.lo as nat, 16);
    lemma_hex_seq_wf(b.hi as nat, 8);
    lemma_hex_seq_wf(b.lo as nat, 16);
    assert(spec_hex24(a).subrange(0, 8) =~= hex_seq(a.hi as nat, 8));
    assert(spec_hex24(a).subrange(8, 24) =~= hex_seq(a.lo as nat, 16));
    assert(spec_hex24(b).subrange(0, 8) =~= hex_seq(b.hi as nat, 8));
    assert(spec_hex24(b).subrange(8, 24) =~= hex_seq(b.lo as nat, 16));
    lemma_pow16_values();
    lemma_hex_value_of_hex_seq(a.hi as nat, 8);
    lemma_hex_value_of_hex_seq(a.lo as nat, 16);
    lemma_hex_value_of_hex_seq(b.hi as nat, 8);
    lemma_hex_value_of_hex_seq(b.lo as nat, 16);
}

/// The two powers of 16 that bound an identifier's halves.
pub proof fn lemma_pow16_values()
    ensures
        pow16(8) == 0x1_0000_0000,
        pow16(16) == 0x1_0000_0000_0000_0000,
{
    reveal_with_fuel(pow16, 17);
}

pub(crate) fn hex_digit_str(d: u64) -> (r: &'static str)
    requires
        d < 16,
    ensures
        r@.len() == 1,
        r@[0] == hex_char_of(d as int),
{
    if d == 0 {
        proof {
            reveal_strlit("0");
        }
        "0"
    } else if d == 1 {
        proof {
            reveal_strlit("1");
        }
        "1"
    } else if d == 2 {
        proof {
            reveal_strlit("2");
        }
        "2"
    } else if d == 3 {
        proof {
            reveal_strlit("3");
        }
        "3"
    } else if d == 4 {
        proof {
            reveal_strlit("4");
        }
        "4"
    } else if d == 5 {
        proof {
            reveal_strlit("5");
        }
        "5"
    } else if d == 6 {
        proof {
            reveal_strlit("6");
        }
        "6"
    } else if d == 7 {
        proof {
            reveal_strlit("7");
        }
        "7"
    } else if d == 8 {
        proof {
            reveal_strlit("8");
        }
        "8"
    } else if d == 9 {
        proof {
            reveal_strlit("9");
        }
        "9"
    } else if d == 10 {
        proof {
            reveal_strlit("a");
        }
        "a"
    } else if d == 11 {
        proof {
            reveal_strlit("b");
        }
        "b"
    } else if d == 12 {
        proof {
            reveal_strlit("c");
        }
        "c"
    } else if d == 13 {
        proof {
            reveal_strlit("d");
        }
        "d"
    } else if d == 14 {
        proof {
            reveal_strlit("e");
        }
        "e"
    } else {
        proof {
            reveal_strlit("f");
        }
        "f"
    }
}

fn hex_str_of(v: u64, n: usize) -> (r: String)
    requires
        n <= 16,
    ensures
        r@ == hex_seq(v as nat, n as nat),
    decreases n,
{
    if n == 0 {
        String::new()
    } else {
        let rest = hex_str_of(v / 16, n - 1);
        let d = hex_digit_str(v % 16);
        let r = rest.concat(d);
        proof {
            assert(d@ =~= seq![hex_char_of((v as nat % 16) as int)]);
            assert(r@ =~= hex_seq((v / 16) as nat, (n - 1) as nat).push(
                hex_char_of((v as nat % 16) as int),
            ));
        }
        r
    }
}

impl ObjectId {
    /// Renders the identifier as its 24 lowercase hex characters.
    pub fn to_hex(&self) -> (r: String)
        ensures
            r@ == spec_hex24(*self),
            is_hex24(r@),
    {
        let hi_part = hex_str_of(self.hi as u64, 8);
        let lo_part = hex_str_of(self.lo, 16);
        proof {
            lemma_hex24_wf(*self);
        }
        hi_part.concat(lo_part.as_str())
    }
}

/// Parses a client-supplied identifier string. Exactly the strings of 24
/// lowercase hex characters are accepted; anything else is a `BadRequest`,
/// classified before any store call. Parsing inverts rendering.
pub fn to_object_id(s: &str) -> (r: Result<ObjectId, Error>)
    ensures
        match r {
            Ok(id) => is_hex24(s@) && spec_hex24(id) == s@ && id == spec_oid_of(s@),
            Err(e) => !is_hex24(s@) && e matches Error::BadRequest { .. },
        },
{
    let len = s.unicode_len();
    if len != 24 {
        return Err(Error::bad_request("invalid id"));
    }
    let mut hi: u32 = 0;
    let mut i: usize = 0;
    while i < 8
        invariant
            0 <= i <= 8,
            s@.len() == 24,
            forall|j: int| 0 <= j < i ==> is_hex_digit(#[trigger] s@[j]),
            hi as nat == hex_value(s@.subrange(0, i as int)),
            (hi as nat) < pow16(i as nat),
        decreases 8 - i,
    {
        let c = s.get_char(i);
        let u = c as u32;
        let d: u32 = if 48 <= u && u <= 57 {
            u - 48
        } else if 97 <= u && u <= 102 {
            u - 87
        } else {
            return Err(Error::bad_request("invalid id"));
        };
        proof {
            assert(is_hex_digit(s@[i as int]));
            assert(d as int == hex_val_of(s@[i as int]));
            assert(s@.subrange(0, i + 1).drop_last() =~= s@.subrange(0, i as int));
            assert(s@.subrange(0, i + 1).last() == s@[i as int]);
            assert(pow16((i + 1) as nat) == 16 * pow16(i as nat));
            assert((hi as nat) * 16 + d < 16 * pow16(i as nat)) by (nonlinear_arith)
                requires
                    (hi as nat) < pow16(i as nat),
                    d < 16,
            ;
            lemma_pow16_values();
            lemma_pow16_monotone((i + 1) as nat, 8);
        }
        hi = hi * 16 + d;
        i = i + 1;
    }
    let mut lo: u64 = 0;
    let mut k: usize = 8;
    while k < 24
        invariant
            8 <= k <= 24,
            s@.len() == 24,
            forall|j: int| 0 <= j < k ==> is_hex_digit(#[trigger] s@[j]),
            lo as nat == hex_value(s@.subrange(8, k as int)),
            (lo as nat) < pow16((k - 8) as nat),
        decreases 24 - k,
    {
        let c = s.get_char(k);
        let u = c as u32;
        let d: u64 = if 48 <= u && u <= 57 {
            (u - 48) as u64
        } else if 97 <= u && u <= 102 {
            (u - 87) as u64
        } else {
            return Err(Error::bad_request("invalid id"));
        };
        proof {
            assert(is_hex_digit(s@[k as int]));
            assert(d as int == hex_val_of(s@[k as int]));
            assert(s@.subrange(8, k + 1).drop_last() =~= s@.subrange(8, k as int));
            assert(s@.subrange(8, k + 1).last() == s@[k as int]);
            assert(pow16((k + 1 - 8) as nat) == 16 * pow16((k - 8) as nat));
            assert((lo as nat) * 16 + d < 16 * pow16((k - 8) as nat)) by (nonlinear_arith)
                requires
                    (lo as nat) < pow16((k - 8) as nat),
                    d < 16,
            ;
            lemma_pow16_values();
            lemma_pow16_monotone((k + 1 - 8) as nat, 16);
        }
        lo = lo * 16 + d;
        k = k + 1;
    }
    let id = ObjectId { hi, lo };
    proof {
        lemma_pow16_values();
        assert(s@.subrange(0, 8).len() == 8);
        assert(s@.subrange(8, 24) =~= s@.subrange(8, 24));
        lemma_hex_seq_of_hex_value(s@.subrange(0, 8));
        lemma_hex_seq_of_hex_value(s@.subrange(8, 24));
        assert(spec_hex24(id) =~= s@.subrange(0, 8) + s@.subrange(8, 24));
        assert(s@ =~= s@.subrange(0, 8) + s@.subrange(8, 24));
        lemma_oid_of_hex24(s@);
        lemma_hex24_injective(id, spec_oid_of(s@));
    }
    Ok(id)
}

/// Powers of 16 grow with the exponent.
pub proof fn lemma_pow16_monotone(m: nat, n: nat)
    requires
        m <= n,
    ensures
        pow16(m) <= pow16(n),
    decreases n,
{
    if m < n {
        lemma_pow16_monotone(m, (n - 1) as nat);
        assert(pow16(n) == 16 * pow16((n - 1) as nat));
    }
}

} // verus!
