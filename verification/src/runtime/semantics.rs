//! What the instructions compute: the results of the arithmetic and logic
//! operations, the outcomes of the branches, and how loads and stores cut
//! bytes out of words and put them in.

use crate::program::Opcode;
use crate::word::{
    byte_at, bytes_view, le_bytes, le_value, lemma_decompose_recompose, u32_from_le_bytes,
    u32_to_le_bytes,
};
use vstd::prelude::*;

verus! {

/// Two to the thirty-second.
pub open spec fn two32() -> int {
    0x1_0000_0000
}

/// The integer that a word stands for in two's complement.
pub open spec fn signed(x: u32) -> int {
    if x < 0x8000_0000 {
        x as int
    } else {
        x as int - two32()
    }
}

/// The word that stands for an integer, modulo two to the thirty-second.
pub open spec fn wrap(x: int) -> u32 {
    (x % two32()) as u32
}

/// The absolute value.
pub open spec fn magnitude(x: int) -> int {
    if x < 0 {
        -x
    } else {
        x
    }
}

/// Division that rounds toward zero.
pub open spec fn div_toward_zero(x: int, y: int) -> int {
    if (x < 0) == (y < 0) {
        magnitude(x) / magnitude(y)
    } else {
        -(magnitude(x) / magnitude(y))
    }
}

/// The remainder of the division that rounds toward zero: it has the sign
/// of the dividend.
pub open spec fn rem_toward_zero(x: int, y: int) -> int {
    if x < 0 {
        -(magnitude(x) % magnitude(y))
    } else {
        magnitude(x) % magnitude(y)
    }
}

/// The result of an arithmetic or logic operation on two words.
pub open spec fn alu_spec(op: Opcode, b: u32, c: u32) -> u32 {
    match op {
        Opcode::ADD => wrap(b + c),
        Opcode::SUB => wrap(b - c),
        Opcode::XOR => b ^ c,
        Opcode::OR => b | c,
        Opcode::AND => b & c,
        Opcode::SLL => b << (c % 32),
        Opcode::SRL => b >> (c % 32),
        Opcode::SRA => if b < 0x8000_0000 {
            b >> (c % 32)
        } else {
            !((!b) >> (c % 32))
        },
        Opcode::SLT => if signed(b) < signed(c) {
            1
        } else {
            0
        },
        Opcode::SLTU => if b < c {
            1
        } else {
            0
        },
        Opcode::MUL => wrap(b * c),
        Opcode::MULH => wrap((signed(b) * signed(c)) / two32()),
        Opcode::MULHU => wrap((b * c) / two32()),
        Opcode::MULHSU => wrap((signed(b) * c) / two32()),
        Opcode::DIV => if c == 0 {
            u32::MAX
        } else {
            wrap(div_toward_zero(signed(b), signed(c)))
        },
        Opcode::DIVU => if c == 0 {
            u32::MAX
        } else {
            b / c
        },
        Opcode::REM => if c == 0 {
            b
        } else {
            wrap(rem_toward_zero(signed(b), signed(c)))
        },
        Opcode::REMU => if c == 0 {
            b
        } else {
            b % c
        },
        _ => 0,
    }
}

/// The high word of the product of two words.
fn mul_high(b: u32, c: u32) -> (r: u32)
    ensures
        r == (b * c) / two32(),
{
    assert(b * c <= 0xFFFF_FFFF * 0xFFFF_FFFF) by (nonlinear_arith)
        requires
            b <= 0xFFFF_FFFF,
            c <= 0xFFFF_FFFF,
    ;
    let p: u64 = (b as u64) * (c as u64);
    (p / 0x1_0000_0000) as u32
}

/// The magnitude of the integer that a word stands for.
fn magnitude_of(x: u32) -> (r: u32)
    ensures
        r == magnitude(signed(x)),
{
    if x < 0x8000_0000 {
        x
    } else {
        (0xFFFF_FFFF - x) + 1
    }
}

/// The word that stands for `-m`.
fn negated(m: u32) -> (r: u32)
    ensures
        r == wrap(-(m as int)),
{
    if m == 0 {
        0
    } else {
        (0xFFFF_FFFF - m) + 1
    }
}

/// Taking the high word commutes with adding a multiple of two to the
/// thirty-second.
proof fn lemma_high_word_shift(x: int, k: int)
    ensures
        (x + two32() * k) / two32() == x / two32() + k,
{
    vstd::arithmetic::div_mod::lemma_div_multiples_vanish_fancy(k, x % two32(), two32());
    vstd::arithmetic::div_mod::lemma_fundamental_div_mod(x, two32());
    let q = x / two32();
    let r = x % two32();
    assert(x + two32() * k == two32() * (q + k) + r) by (nonlinear_arith)
        requires
            x == two32() * q + r,
    ;
    vstd::arithmetic::div_mod::lemma_fundamental_div_mod_converse(
        x + two32() * k,
        two32(),
        q + k,
        r,
    );
}

/// Wrapping forgets multiples of two to the thirty-second.
proof fn lemma_wrap_shift(x: int, k: int)
    ensures
        wrap(x + two32() * k) == wrap(x),
{
    vstd::arithmetic::div_mod::lemma_mod_multiples_vanish(k, x, two32());
    assert(x + two32() * k == two32() * k + x);
}

/// The high word of the product of two signed words.
fn mul_high_signed(b: u32, c: u32) -> (r: u32)
    ensures
        r == wrap((signed(b) * signed(c)) / two32()),
{
    let hi = mul_high(b, c);
    let tb: u32 = if b >= 0x8000_0000 {
        c
    } else {
        0
    };
    let tc: u32 = if c >= 0x8000_0000 {
        b
    } else {
        0
    };
    let r = hi.wrapping_sub(tb).wrapping_sub(tc);
    proof {
        let nb: int = if b >= 0x8000_0000 {
            1
        } else {
            0
        };
        let nc: int = if c >= 0x8000_0000 {
            1
        } else {
            0
        };
        let bc = b * c;
        let t = nb * nc;
        assert(nb * c == tb) by (nonlinear_arith)
            requires
                nb == 0 || nb == 1,
                tb == (if nb == 1 {
                    c as int
                } else {
                    0
                }),
        ;
        assert(nc * b == tc) by (nonlinear_arith)
            requires
                nc == 0 || nc == 1,
                tc == (if nc == 1 {
                    b as int
                } else {
                    0
                }),
        ;
        assert(t == 0 || t == 1) by (nonlinear_arith)
            requires
                nb == 0 || nb == 1,
                nc == 0 || nc == 1,
                t == nb * nc,
        ;
        let k = two32() * t - tb - tc;
        assert(signed(b) * signed(c) == bc + two32() * k) by (nonlinear_arith)
            requires
                signed(b) == b - two32() * nb,
                signed(c) == c - two32() * nc,
                bc == b * c,
                k == two32() * (nb * nc) - nb * c - nc * b,
        ;
        lemma_high_word_shift(bc, k);
        assert((signed(b) * signed(c)) / two32() == hi + k);
        lemma_wrap_shift(hi - tb - tc, t);
        assert(hi + k == (hi - tb - tc) + two32() * t);
    }
    r
}

/// The high word of the product of a signed word and an unsigned word.
fn mul_high_signed_unsigned(b: u32, c: u32) -> (r: u32)
    ensures
        r == wrap((signed(b) * c) / two32()),
{
    let hi = mul_high(b, c);
    let tb: u32 = if b >= 0x8000_0000 {
        c
    } else {
        0
    };
    let r = hi.wrapping_sub(tb);
    proof {
        let nb: int = if b >= 0x8000_0000 {
            1
        } else {
            0
        };
        let bc = b * c;
        assert(nb * c == tb) by (nonlinear_arith)
            requires
                nb == 0 || nb == 1,
                tb == (if nb == 1 {
                    c as int
                } else {
                    0
                }),
        ;
        assert(signed(b) * c == bc + two32() * (-tb)) by (nonlinear_arith)
            requires
                signed(b) == b - two32() * nb,
                bc == b * c,
                tb == nb * c,
        ;
        lemma_high_word_shift(bc, -tb);
    }
    r
}

/// The quotient of two signed words, rounded toward zero.
fn div_signed(b: u32, c: u32) -> (r: u32)
    requires
        c != 0,
    ensures
        r == wrap(div_toward_zero(signed(b), signed(c))),
{
    let q = magnitude_of(b) / magnitude_of(c);
    if (b >= 0x8000_0000) == (c >= 0x8000_0000) {
        proof {
            lemma_wrap_of_word(q);
        }
        q
    } else {
        negated(q)
    }
}

/// The remainder of two signed words, with the sign of the dividend.
fn rem_signed(b: u32, c: u32) -> (r: u32)
    requires
        c != 0,
    ensures
        r == wrap(rem_toward_zero(signed(b), signed(c))),
{
    let m = magnitude_of(b) % magnitude_of(c);
    if b >= 0x8000_0000 {
        negated(m)
    } else {
        proof {
            lemma_wrap_of_word(m);
        }
        m
    }
}

/// Whether one signed word is less than another.
fn less_signed(b: u32, c: u32) -> (r: bool)
    ensures
        r == (signed(b) < signed(c)),
{
    let bn = b >= 0x8000_0000;
    let cn = c >= 0x8000_0000;
    if bn == cn {
        b < c
    } else {
        bn
    }
}

/// The result of an arithmetic or logic operation on two words. For an
/// opcode that is none of them, zero.
pub fn alu(op: Opcode, b: u32, c: u32) -> (r: u32)
    ensures
        r == alu_spec(op, b, c),
{
    let sh: u32 = c % 32;
    match op {
        Opcode::ADD => b.wrapping_add(c),
        Opcode::SUB => b.wrapping_sub(c),
        Opcode::XOR => b ^ c,
        Opcode::OR => b | c,
        Opcode::AND => b & c,
        Opcode::SLL => b << sh,
        Opcode::SRL => b >> sh,
        Opcode::SRA => {
            if b < 0x8000_0000 {
                b >> sh
            } else {
                !((!b) >> sh)
            }
        },
        Opcode::SLT => {
            if less_signed(b, c) {
                1
            } else {
                0
            }
        },
        Opcode::SLTU => {
            if b < c {
                1
            } else {
                0
            }
        },
        Opcode::MUL => b.wrapping_mul(c),
        Opcode::MULH => mul_high_signed(b, c),
        Opcode::MULHU => {
            let r = mul_high(b, c);
            proof {
                lemma_wrap_of_word(r);
            }
            r
        },
        Opcode::MULHSU => mul_high_signed_unsigned(b, c),
        Opcode::DIV => {
            if c == 0 {
                u32::MAX
            } else {
                div_signed(b, c)
            }
        },
        Opcode::DIVU => {
            if c == 0 {
                u32::MAX
            } else {
                b / c
            }
        },
        Opcode::REM => {
            if c == 0 {
                b
            } else {
                rem_signed(b, c)
            }
        },
        Opcode::REMU => {
            if c == 0 {
                b
            } else {
                b % c
            }
        },
        _ => 0,
    }
}

/// A word wraps to itself.
proof fn lemma_wrap_of_word(x: u32)
    ensures
        wrap(x as int) == x,
{
}

/// Whether a branch is taken.
pub open spec fn branch_taken_spec(op: Opcode, a: u32, b: u32) -> bool {
    match op {
        Opcode::BEQ => a == b,
        Opcode::BNE => a != b,
        Opcode::BLT => signed(a) < signed(b),
        Opcode::BGE => signed(a) >= signed(b),
        Opcode::BLTU => a < b,
        Opcode::BGEU => a >= b,
        _ => false,
    }
}

/// Whether a branch is taken. For an opcode that is no branch, it is not.
pub fn branch_taken(op: Opcode, a: u32, b: u32) -> (r: bool)
    ensures
        r == branch_taken_spec(op, a, b),
{
    let less = less_signed(a, b);
    match op {
        Opcode::BEQ => a == b,
        Opcode::BNE => a != b,
        Opcode::BLT => less,
        Opcode::BGE => !less,
        Opcode::BLTU => a < b,
        Opcode::BGEU => a >= b,
        _ => false,
    }
}

/// The alignment that the address of a load or store must have.
pub open spec fn access_alignment(op: Opcode) -> int {
    match op {
        Opcode::LH | Opcode::LHU | Opcode::SH => 2,
        Opcode::LW | Opcode::SW => 4,
        _ => 1,
    }
}

/// What a load gives, from the word that holds the address and the place
/// of the address in the word.
pub open spec fn load_value(op: Opcode, word: u32, offset: int) -> u32 {
    let byte = byte_at(word as int, offset);
    let half = byte_at(word as int, offset) + 256 * byte_at(word as int, offset + 1);
    match op {
        Opcode::LB => if byte < 128 {
            byte as u32
        } else {
            (byte + 0xFFFF_FF00) as u32
        },
        Opcode::LBU => byte as u32,
        Opcode::LH => if half < 32768 {
            half as u32
        } else {
            (half + 0xFFFF_0000) as u32
        },
        Opcode::LHU => half as u32,
        _ => word,
    }
}

/// What a load gives, from the word that holds the address and the place
/// of the address in the word.
pub fn load(op: Opcode, word: u32, offset: u32) -> (r: u32)
    requires
        offset < 4,
        offset as int % access_alignment(op) == 0,
    ensures
        r == load_value(op, word, offset as int),
{
    let bytes = u32_to_le_bytes(word);
    proof {
        lemma_decompose_recompose(word);
        assert(forall|i: int| 0 <= i < 4 ==> bytes_view(bytes)[i] == byte_at(word as int, i));
        assert(bytes_view(bytes)[offset as int] == byte_at(word as int, offset as int));
    }
    let byte: u32 = bytes[offset as usize] as u32;
    match op {
        Opcode::LB => {
            if byte < 128 {
                byte
            } else {
                byte + 0xFFFF_FF00
            }
        },
        Opcode::LBU => byte,
        Opcode::LH => {
            assert(bytes_view(bytes)[offset + 1] == byte_at(word as int, offset + 1));
            let half: u32 = byte + 256 * (bytes[offset as usize + 1] as u32);
            if half < 32768 {
                half
            } else {
                half + 0xFFFF_0000
            }
        },
        Opcode::LHU => {
            assert(bytes_view(bytes)[offset + 1] == byte_at(word as int, offset + 1));
            byte + 256 * (bytes[offset as usize + 1] as u32)
        },
        _ => word,
    }
}

/// The bytes of a word after a store of `a` at a place in the word.
pub open spec fn stored_bytes(op: Opcode, word: u32, a: u32, offset: int) -> Seq<int> {
    let w = le_bytes(word as int);
    let v = le_bytes(a as int);
    match op {
        Opcode::SB => w.update(offset, v[0]),
        Opcode::SH => w.update(offset, v[0]).update(offset + 1, v[1]),
        _ => v,
    }
}

/// The word after a store of `a` at a place in the word.
pub open spec fn store_value(op: Opcode, word: u32, a: u32, offset: int) -> u32 {
    le_value(stored_bytes(op, word, a, offset)) as u32
}

/// The word after a store of `a` at a place in the word.
pub fn store(op: Opcode, word: u32, a: u32, offset: u32) -> (r: u32)
    requires
        offset < 4,
        offset as int % access_alignment(op) == 0,
    ensures
        r == store_value(op, word, a, offset as int),
{
    let mut w = u32_to_le_bytes(word);
    let v = u32_to_le_bytes(a);
    let ghost w0 = bytes_view(w);
    match op {
        Opcode::SB => {
            w[offset as usize] = v[0];
            assert(bytes_view(w) =~= stored_bytes(op, word, a, offset as int));
            u32_from_le_bytes(w)
        },
        Opcode::SH => {
            w[offset as usize] = v[0];
            w[offset as usize + 1] = v[1];
            assert(bytes_view(w) =~= stored_bytes(op, word, a, offset as int));
            u32_from_le_bytes(w)
        },
        _ => {
            assert(bytes_view(v) =~= stored_bytes(op, word, a, offset as int));
            a
        },
    }
}

} // verus!
