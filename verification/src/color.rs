//! Colors in the RGB color space, with hex conversions.

use vstd::prelude::*;
use vstd::string::StringSliceAdditionalSpecFns;

verus! {

/// Represents a color in the RGB color space.
#[derive(Debug, Clone, Copy, PartialEq, Eq, Structural)]
pub struct Color {
    pub r: u8,
    pub g: u8,
    pub b: u8,
}

/// The color packed by a hex value: red in bits 23..16, green in 15..8,
/// blue in 7..0.
pub open spec fn spec_from_hex(hex: u32) -> Color {
    Color {
        r: (hex / 0x10000 % 0x100) as u8,
        g: (hex / 0x100 % 0x100) as u8,
        b: (hex % 0x100) as u8,
    }
}

/// Whether a byte is an ASCII hex digit.
pub open spec fn is_hex_digit_byte(b: u8) -> bool {
    (0x30 <= b <= 0x39) || (0x41 <= b <= 0x46) || (0x61 <= b <= 0x66)
}

/// The value of an ASCII hex digit.
pub open spec fn hex_digit_val(b: u8) -> int {
    if 0x30 <= b <= 0x39 {
        b - 0x30
    } else if 0x41 <= b <= 0x46 {
        b - 0x41 + 10
    } else {
        b - 0x61 + 10
    }
}

/// The value of a string of hex digits, most significant first.
pub open spec fn hex_value(s: Seq<u8>) -> int
    decreases s.len(),
{
    if s.len() == 0 {
        0
    } else {
        hex_value(s.drop_last()) * 16 + hex_digit_val(s.last())
    }
}

/// The bytes after any leading `#` marks.
pub open spec fn strip_hex_marks(s: Seq<u8>) -> Seq<u8>
    decreases s.len(),
{
    if s.len() > 0 && s[0] == 0x23 {
        strip_hex_marks(s.drop_first())
    } else {
        s
    }
}

/// Whether every byte of the sequence is a hex digit.
pub open spec fn all_hex_digits(s: Seq<u8>) -> bool {
    forall|i: int| 0 <= i < s.len() ==> is_hex_digit_byte(#[trigger] s[i])
}

/// What parsing a hex color string yields: strip leading `#` marks; the
/// rest must be one or more hex digits whose value fits in 32 bits.
pub open spec fn spec_color_from_hex_str(s: Seq<u8>) -> Option<Color> {
    let t = strip_hex_marks(s);
    if t.len() > 0 && all_hex_digits(t) && hex_value(t) <= u32::MAX {
        Some(spec_from_hex(hex_value(t) as u32))
    } else {
        None
    }
}

/// The uppercase hex digit character of a value below 16.
pub open spec fn hex_char(d: int) -> char {
    if d == 0 {
        '0'
    } else if d == 1 {
        '1'
    } else if d == 2 {
        '2'
    } else if d == 3 {
        '3'
    } else if d == 4 {
        '4'
    } else if d == 5 {
        '5'
    } else if d == 6 {
        '6'
    } else if d == 7 {
        '7'
    } else if d == 8 {
        '8'
    } else if d == 9 {
        '9'
    } else if d == 10 {
        'A'
    } else if d == 11 {
        'B'
    } else if d == 12 {
        'C'
    } else if d == 13 {
        'D'
    } else if d == 14 {
        'E'
    } else {
        'F'
    }
}

/// The `#RRGGBB` character sequence of a color, uppercase.
pub open spec fn spec_hex_str_chars(c: Color) -> Seq<char> {
    seq![
        '#',
        hex_char(c.r as int / 16),
        hex_char(c.r as int % 16),
        hex_char(c.g as int / 16),
        hex_char(c.g as int % 16),
        hex_char(c.b as int / 16),
        hex_char(c.b as int % 16),
    ]
}

impl Color {
    /// Create a new color from the RGB values.
    pub fn new(r: u8, g: u8, b: u8) -> (c: Self)
        ensures
            c == (Color { r, g, b }),
    {
        Self { r, g, b }
    }

    /// Create a new color from a packed hex value.
    pub fn from_hex(hex: u32) -> (c: Self)
        ensures
            c == spec_from_hex(hex),
    {
        Self {
            r: (hex / 0x10000 % 0x100) as u8,
            g: (hex / 0x100 % 0x100) as u8,
            b: (hex % 0x100) as u8,
        }
    }

    /// Convert the color to a packed hex value.
    pub fn to_hex(&self) -> (hex: u32)
        ensures
            hex == self.r * 0x10000 + self.g * 0x100 + self.b,
            spec_from_hex(hex) == *self,
    {
        let hex: u32 = (self.r as u32) * 0x10000 + (self.g as u32) * 0x100 + (self.b as u32);
        proof {
            let ghost r = self.r;
            let ghost g = self.g;
            let ghost b = self.b;
            assert((r as u32 * 0x10000 + g as u32 * 0x100 + b as u32) / 0x10000 % 0x100 == r
                && (r as u32 * 0x10000 + g as u32 * 0x100 + b as u32) / 0x100 % 0x100 == g && (
            r as u32 * 0x10000 + g as u32 * 0x100 + b as u32) % 0x100 == b) by (bit_vector);
        }
        hex
    }

    /// Convert the color to an uppercase `#RRGGBB` hex string.
    pub fn to_hex_str(&self) -> (s: String)
        ensures
            s@ == spec_hex_str_chars(*self),
    {
        let mut s = String::new();
        proof {
            reveal_strlit("#");
        }
        s.append("#");
        append_hex_byte(&mut s, self.r);
        append_hex_byte(&mut s, self.g);
        append_hex_byte(&mut s, self.b);
        proof {
            assert(s@ =~= spec_hex_str_chars(*self));
        }
        s
    }

    /// Create a color from a hex string: any leading `#` marks are
    /// stripped, and the rest must be one or more hex digits whose value
    /// fits in 32 bits.
    pub fn from_hex_str(hex: &str) -> (c: Option<Self>)
        ensures
            c == spec_color_from_hex_str(hex.spec_bytes()),
    {
        let bytes = hex.as_bytes();
        let n = bytes.len();
        let mut start: usize = 0;
        proof {
            assert(bytes@.skip(0) =~= bytes@);
        }
        while start < n && bytes[start] == 0x23
            invariant
                0 <= start <= n,
                n == bytes.len(),
                strip_hex_marks(bytes@) == strip_hex_marks(bytes@.skip(start as int)),
            decreases n - start,
        {
            proof {
                assert(bytes@.skip(start as int).drop_first() =~= bytes@.skip(start as int + 1));
            }
            start = start + 1;
        }
        proof {
            assert(strip_hex_marks(bytes@.skip(start as int)) == bytes@.skip(start as int));
        }
        let ghost t = bytes@.skip(start as int);
        if start == n {
            return None;
        }
        let mut acc: u32 = 0;
        let mut i: usize = start;
        while i < n
            invariant
                start <= i <= n,
                n == bytes.len(),
                bytes@ == hex.spec_bytes(),
                t == bytes@.skip(start as int),
                strip_hex_marks(bytes@) == t,
                all_hex_digits(t.take(i - start)),
                acc == hex_value(t.take(i - start)),
            decreases n - i,
        {
            let b = bytes[i];
            let d: u32 = if 0x30 <= b && b <= 0x39 {
                (b - 0x30) as u32
            } else if 0x41 <= b && b <= 0x46 {
                (b - 0x41) as u32 + 10
            } else if 0x61 <= b && b <= 0x66 {
                (b - 0x61) as u32 + 10
            } else {
                proof {
                    assert(t[i - start] == bytes@[i as int]);
                    assert(!is_hex_digit_byte(t[i - start]));
                    assert(!all_hex_digits(t));
                }
                return None;
            };
            proof {
                assert(t[i - start] == bytes@[i as int]);
                assert(is_hex_digit_byte(t[i - start]));
                assert(hex_digit_val(bytes@[i as int]) == d);
                assert(t.take(i - start + 1).drop_last() =~= t.take(i - start));
                assert(t.take(i - start + 1).last() == bytes@[i as int]);
                assert(hex_value(t.take(i - start + 1)) == acc * 16 + d);
            }
            if acc > (u32::MAX - d) / 16 {
                proof {
                    assert(acc * 16 + d > u32::MAX) by (bit_vector)
                        requires
                            acc > (u32::MAX - d) / 16,
                            d < 16,
                    ;
                    if all_hex_digits(t) {
                        lemma_hex_value_grows(t, i - start + 1);
                        assert(hex_value(t) > u32::MAX);
                    }
                }
                return None;
            }
            proof {
                assert(acc * 16 + d <= u32::MAX) by (bit_vector)
                    requires
                        acc <= (u32::MAX - d) / 16,
                        d < 16,
                ;
            }
            acc = acc * 16 + d;
            i = i + 1;
        }
        proof {
            assert(t.take(n - start) =~= t);
        }
        Some(Self::from_hex(acc))
    }
}

/// Append the two uppercase hex digits of a byte.
fn append_hex_byte(s: &mut String, v: u8)
    ensures
        final (s)@ == old(s)@ + seq![hex_char(v as int / 16), hex_char(v as int % 16)],
{
    append_hex_digit(s, v / 16);
    append_hex_digit(s, v % 16);
    proof {
        assert(old(s)@ + seq![hex_char(v as int / 16), hex_char(v as int % 16)] =~= old(s)@.push(
            hex_char(v as int / 16),
        ).push(hex_char(v as int % 16)));
    }
}

/// Append one uppercase hex digit.
fn append_hex_digit(s: &mut String, d: u8)
    requires
        d < 16,
    ensures
        final (s)@ == old(s)@.push(hex_char(d as int)),
{
    let digit: &str = match d {
        0 => "0",
        1 => "1",
        2 => "2",
        3 => "3",
        4 => "4",
        5 => "5",
        6 => "6",
        7 => "7",
        8 => "8",
        9 => "9",
        10 => "A",
        11 => "B",
        12 => "C",
        13 => "D",
        14 => "E",
        _ => "F",
    };
    proof {
        reveal_strlit("0");
        reveal_strlit("1");
        reveal_strlit("2");
        reveal_strlit("3");
        reveal_strlit("4");
        reveal_strlit("5");
        reveal_strlit("6");
        reveal_strlit("7");
        reveal_strlit("8");
        reveal_strlit("9");
        reveal_strlit("A");
        reveal_strlit("B");
        reveal_strlit("C");
        reveal_strlit("D");
        reveal_strlit("E");
        reveal_strlit("F");
        assert(digit@ =~= seq![hex_char(d as int)]);
    }
    s.append(digit);
    proof {
        assert(old(s)@ + digit@ =~= old(s)@.push(hex_char(d as int)));
    }
}

/// The value of a hex digit string only grows as digits are appended.
proof fn lemma_hex_value_grows(s: Seq<u8>, i: int)
    requires
        0 <= i <= s.len(),
        all_hex_digits(s),
    ensures
        hex_value(s) >= hex_value(s.take(i)),
        hex_value(s) >= 0,
    decreases s.len(),
{
    if s.len() == 0 {
    } else {
        lemma_hex_value_grows(s.drop_last(), if i < s.len() {
            i
        } else {
            s.len() - 1
        });
        assert(all_hex_digits(s.drop_last())) by {
            assert(forall|j: int|
                0 <= j < s.len() - 1 ==> s.drop_last()[j] == #[trigger] s[j]);
        }
        if i < s.len() {
            assert(s.drop_last().take(i) =~= s.take(i));
        } else {
            assert(s.take(i) =~= s);
        }
        assert(hex_digit_val(s.last()) >= 0);
        assert(hex_value(s) == hex_value(s.drop_last()) * 16 + hex_digit_val(s.last()));
        assert(hex_value(s.drop_last()) * 16 >= hex_value(s.drop_last())) by (nonlinear_arith)
            requires
                hex_value(s.drop_last()) >= 0,
        ;
    }
}

} // verus!
