//! Closed forms by which the lookup tables are checked.
use vstd::prelude::*;

use super::super::model::{lane_value, lemma_shift_bits_add, shift_bit, shift_bits, POLYNOMIAL};

verus! {

/// Eight shifts of the register in closed form.
pub open spec fn next(value: u16) -> u16 {
    let low = (value as u8) ^ ((value as u8) << 4);
    (value >> 8) ^ ((low as u16) << 8) ^ ((low as u16) << 3) ^ ((low as u16) >> 4)
}

/// Exclusive-or of the values whose bit is set in `byte`.
pub open spec fn combine(
    byte: u8,
    v0: u16,
    v1: u16,
    v2: u16,
    v3: u16,
    v4: u16,
    v5: u16,
    v6: u16,
    v7: u16,
) -> u16 {
    (if byte & 0x01 != 0 { v0 } else { 0 })
        ^ (if byte & 0x02 != 0 { v1 } else { 0 })
        ^ (if byte & 0x04 != 0 { v2 } else { 0 })
        ^ (if byte & 0x08 != 0 { v3 } else { 0 })
        ^ (if byte & 0x10 != 0 { v4 } else { 0 })
        ^ (if byte & 0x20 != 0 { v5 } else { 0 })
        ^ (if byte & 0x40 != 0 { v6 } else { 0 })
        ^ (if byte & 0x80 != 0 { v7 } else { 0 })
}

proof fn lemma_next_by_bits(
    v: u16,
    v1: u16,
    v2: u16,
    v3: u16,
    v4: u16,
    v5: u16,
    v6: u16,
    v7: u16,
    v8: u16,
)
    by (bit_vector)
    requires
        v1 == shift_bit(v, 0x8408),
        v2 == shift_bit(v1, 0x8408),
        v3 == shift_bit(v2, 0x8408),
        v4 == shift_bit(v3, 0x8408),
        v5 == shift_bit(v4, 0x8408),
        v6 == shift_bit(v5, 0x8408),
        v7 == shift_bit(v6, 0x8408),
        v8 == shift_bit(v7, 0x8408),
    ensures
        v8 == next(v),
{
}

/// The closed form is the eight shifts.
pub proof fn lemma_next(value: u16)
    ensures
        shift_bits(value, POLYNOMIAL, 8) == next(value),
{
    reveal_with_fuel(shift_bits, 9);
    lemma_next_by_bits(
        value,
        shift_bits(value, POLYNOMIAL, 1),
        shift_bits(value, POLYNOMIAL, 2),
        shift_bits(value, POLYNOMIAL, 3),
        shift_bits(value, POLYNOMIAL, 4),
        shift_bits(value, POLYNOMIAL, 5),
        shift_bits(value, POLYNOMIAL, 6),
        shift_bits(value, POLYNOMIAL, 7),
        shift_bits(value, POLYNOMIAL, 8),
    );
}

/// A lane value from the one below it.
pub proof fn lemma_lane_above(byte: u8, below: nat)
    ensures
        lane_value(below + 1, byte) == next(lane_value(below, byte)),
{
    lemma_next(lane_value(below, byte));
    lemma_shift_bits_add(byte as u16, POLYNOMIAL, 8 * (below + 1), 8);
}

/// `lane` holds the lane values at distance `distance`.
pub open spec fn holds_lane(lane: [u16; 256], distance: nat) -> bool {
    forall|i: int| 0 <= i < 256 ==> #[trigger] lane@[i] == lane_value(distance, i as u8)
}

/// An index of a lane is one of its indices.
pub proof fn lemma_indices(i: int)
    requires
        0 <= i < 256,
    ensures
        i == 0 || i == 1 || i == 2 || i == 3 || i == 4 || i == 5 || i == 6 || i == 7
        || i == 8 || i == 9 || i == 10 || i == 11 || i == 12 || i == 13 || i == 14 || i == 15
        || i == 16 || i == 17 || i == 18 || i == 19 || i == 20 || i == 21 || i == 22 || i == 23
        || i == 24 || i == 25 || i == 26 || i == 27 || i == 28 || i == 29 || i == 30 || i == 31
        || i == 32 || i == 33 || i == 34 || i == 35 || i == 36 || i == 37 || i == 38 || i == 39
        || i == 40 || i == 41 || i == 42 || i == 43 || i == 44 || i == 45 || i == 46 || i == 47
        || i == 48 || i == 49 || i == 50 || i == 51 || i == 52 || i == 53 || i == 54 || i == 55
        || i == 56 || i == 57 || i == 58 || i == 59 || i == 60 || i == 61 || i == 62 || i == 63
        || i == 64 || i == 65 || i == 66 || i == 67 || i == 68 || i == 69 || i == 70 || i == 71
        || i == 72 || i == 73 || i == 74 || i == 75 || i == 76 || i == 77 || i == 78 || i == 79
        || i == 80 || i == 81 || i == 82 || i == 83 || i == 84 || i == 85 || i == 86 || i == 87
        || i == 88 || i == 89 || i == 90 || i == 91 || i == 92 || i == 93 || i == 94 || i == 95
        || i == 96 || i == 97 || i == 98 || i == 99 || i == 100 || i == 101 || i == 102 || i == 103
        || i == 104 || i == 105 || i == 106 || i == 107 || i == 108 || i == 109 || i == 110 || i == 111
        || i == 112 || i == 113 || i == 114 || i == 115 || i == 116 || i == 117 || i == 118 || i == 119
        || i == 120 || i == 121 || i == 122 || i == 123 || i == 124 || i == 125 || i == 126 || i == 127
        || i == 128 || i == 129 || i == 130 || i == 131 || i == 132 || i == 133 || i == 134 || i == 135
        || i == 136 || i == 137 || i == 138 || i == 139 || i == 140 || i == 141 || i == 142 || i == 143
        || i == 144 || i == 145 || i == 146 || i == 147 || i == 148 || i == 149 || i == 150 || i == 151
        || i == 152 || i == 153 || i == 154 || i == 155 || i == 156 || i == 157 || i == 158 || i == 159
        || i == 160 || i == 161 || i == 162 || i == 163 || i == 164 || i == 165 || i == 166 || i == 167
        || i == 168 || i == 169 || i == 170 || i == 171 || i == 172 || i == 173 || i == 174 || i == 175
        || i == 176 || i == 177 || i == 178 || i == 179 || i == 180 || i == 181 || i == 182 || i == 183
        || i == 184 || i == 185 || i == 186 || i == 187 || i == 188 || i == 189 || i == 190 || i == 191
        || i == 192 || i == 193 || i == 194 || i == 195 || i == 196 || i == 197 || i == 198 || i == 199
        || i == 200 || i == 201 || i == 202 || i == 203 || i == 204 || i == 205 || i == 206 || i == 207
        || i == 208 || i == 209 || i == 210 || i == 211 || i == 212 || i == 213 || i == 214 || i == 215
        || i == 216 || i == 217 || i == 218 || i == 219 || i == 220 || i == 221 || i == 222 || i == 223
        || i == 224 || i == 225 || i == 226 || i == 227 || i == 228 || i == 229 || i == 230 || i == 231
        || i == 232 || i == 233 || i == 234 || i == 235 || i == 236 || i == 237 || i == 238 || i == 239
        || i == 240 || i == 241 || i == 242 || i == 243 || i == 244 || i == 245 || i == 246 || i == 247
        || i == 248 || i == 249 || i == 250 || i == 251 || i == 252 || i == 253 || i == 254 || i == 255,
{
}

} // verus!
