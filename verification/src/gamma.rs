//! Per-channel gamma lookup tables.
//!
//! The controller's target has no fast exponentiation, so the nonlinear
//! mappings are precomputed 256-entry tables, selected by the bit pattern of
//! the requested exponent: tables exist for the stock exponents 1.0, 1.3 and
//! 1.6, and any other exponent falls back to the identity mapping. Building
//! a table set happens only when the configuration changes, never per frame.

use vstd::prelude::*;

use crate::messages::{GAMMA_BITS_1_0, GAMMA_BITS_1_3, GAMMA_BITS_1_6};
use crate::types::RGB;

verus! {

/// Lookup table for a gamma exponent of 1.0: the identity mapping.
pub const GAMMA_TABLE_1_0: [u8; 256] = [
    0, 1, 2, 3, 4, 5, 6, 7, 8, 9, 10, 11, 12, 13, 14, 15,
    16, 17, 18, 19, 20, 21, 22, 23, 24, 25, 26, 27, 28, 29, 30, 31,
    32, 33, 34, 35, 36, 37, 38, 39, 40, 41, 42, 43, 44, 45, 46, 47,
    48, 49, 50, 51, 52, 53, 54, 55, 56, 57, 58, 59, 60, 61, 62, 63,
    64, 65, 66, 67, 68, 69, 70, 71, 72, 73, 74, 75, 76, 77, 78, 79,
    80, 81, 82, 83, 84, 85, 86, 87, 88, 89, 90, 91, 92, 93, 94, 95,
    96, 97, 98, 99, 100, 101, 102, 103, 104, 105, 106, 107, 108, 109, 110, 111,
    112, 113, 114, 115, 116, 117, 118, 119, 120, 121, 122, 123, 124, 125, 126, 127,
    128, 129, 130, 131, 132, 133, 134, 135, 136, 137, 138, 139, 140, 141, 142, 143,
    144, 145, 146, 147, 148, 149, 150, 151, 152, 153, 154, 155, 156, 157, 158, 159,
    160, 161, 162, 163, 164, 165, 166, 167, 168, 169, 170, 171, 172, 173, 174, 175,
    176, 177, 178, 179, 180, 181, 182, 183, 184, 185, 186, 187, 188, 189, 190, 191,
    192, 193, 194, 195, 196, 197, 198, 199, 200, 201, 202, 203, 204, 205, 206, 207,
    208, 209, 210, 211, 212, 213, 214, 215, 216, 217, 218, 219, 220, 221, 222, 223,
    224, 225, 226, 227, 228, 229, 230, 231, 232, 233, 234, 235, 236, 237, 238, 239,
    240, 241, 242, 243, 244, 245, 246, 247, 248, 249, 250, 251, 252, 253, 254, 255,
];

/// Lookup table for a gamma exponent of 1.3.
pub const GAMMA_TABLE_1_3: [u8; 256] = [
    0, 0, 0, 1, 1, 2, 2, 2, 3, 3, 4, 4, 5, 5, 6, 6,
    7, 8, 8, 9, 9, 10, 11, 11, 12, 12, 13, 14, 14, 15, 16, 16,
    17, 18, 19, 19, 20, 21, 21, 22, 23, 24, 24, 25, 26, 27, 28, 28,
    29, 30, 31, 31, 32, 33, 34, 35, 36, 36, 37, 38, 39, 40, 41, 41,
    42, 43, 44, 45, 46, 47, 47, 48, 49, 50, 51, 52, 53, 54, 55, 56,
    57, 57, 58, 59, 60, 61, 62, 63, 64, 65, 66, 67, 68, 69, 70, 71,
    72, 73, 74, 75, 76, 76, 77, 78, 79, 80, 81, 82, 83, 84, 85, 86,
    88, 89, 90, 91, 92, 93, 94, 95, 96, 97, 98, 99, 100, 101, 102, 103,
    104, 105, 106, 107, 108, 109, 110, 112, 113, 114, 115, 116, 117, 118, 119, 120,
    121, 122, 124, 125, 126, 127, 128, 129, 130, 131, 132, 133, 135, 136, 137, 138,
    139, 140, 141, 143, 144, 145, 146, 147, 148, 149, 151, 152, 153, 154, 155, 156,
    157, 159, 160, 161, 162, 163, 164, 166, 167, 168, 169, 170, 172, 173, 174, 175,
    176, 178, 179, 180, 181, 182, 184, 185, 186, 187, 188, 190, 191, 192, 193, 194,
    196, 197, 198, 199, 201, 202, 203, 204, 206, 207, 208, 209, 210, 212, 213, 214,
    215, 217, 218, 219, 220, 222, 223, 224, 226, 227, 228, 229, 231, 232, 233, 234,
    236, 237, 238, 240, 241, 242, 243, 245, 246, 247, 249, 250, 251, 252, 254, 255,
];

/// Lookup table for a gamma exponent of 1.6.
pub const GAMMA_TABLE_1_6: [u8; 256] = [
    0, 0, 0, 0, 0, 0, 1, 1, 1, 1, 1, 2, 2, 2, 2, 3,
    3, 3, 4, 4, 4, 5, 5, 5, 6, 6, 7, 7, 7, 8, 8, 9,
    9, 10, 10, 11, 11, 12, 12, 13, 13, 14, 14, 15, 15, 16, 16, 17,
    18, 18, 19, 19, 20, 21, 21, 22, 23, 23, 24, 25, 25, 26, 27, 27,
    28, 29, 29, 30, 31, 31, 32, 33, 34, 34, 35, 36, 37, 38, 38, 39,
    40, 41, 42, 42, 43, 44, 45, 46, 46, 47, 48, 49, 50, 51, 52, 53,
    53, 54, 55, 56, 57, 58, 59, 60, 61, 62, 63, 64, 64, 65, 66, 67,
    68, 69, 70, 71, 72, 73, 74, 75, 76, 77, 78, 79, 80, 81, 83, 84,
    85, 86, 87, 88, 89, 90, 91, 92, 93, 94, 95, 97, 98, 99, 100, 101,
    102, 103, 104, 106, 107, 108, 109, 110, 111, 113, 114, 115, 116, 117, 119, 120,
    121, 122, 123, 125, 126, 127, 128, 130, 131, 132, 133, 135, 136, 137, 138, 140,
    141, 142, 143, 145, 146, 147, 149, 150, 151, 153, 154, 155, 157, 158, 159, 161,
    162, 163, 165, 166, 167, 169, 170, 171, 173, 174, 176, 177, 178, 180, 181, 183,
    184, 185, 187, 188, 190, 191, 193, 194, 196, 197, 198, 200, 201, 203, 204, 206,
    207, 209, 210, 212, 213, 215, 216, 218, 219, 221, 222, 224, 225, 227, 228, 230,
    231, 233, 235, 236, 238, 239, 241, 242, 244, 245, 247, 249, 250, 252, 253, 255,
];

/// The identity mapping: entry `i` holds `i`.
pub open spec fn linear_table() -> Seq<u8> {
    Seq::new(256, |i: int| i as u8)
}

/// The table that a gamma exponent with bit pattern `bits` selects.
pub open spec fn table_for_bits(bits: u32) -> Seq<u8> {
    if bits == GAMMA_BITS_1_0 {
        GAMMA_TABLE_1_0@
    } else if bits == GAMMA_BITS_1_3 {
        GAMMA_TABLE_1_3@
    } else if bits == GAMMA_BITS_1_6 {
        GAMMA_TABLE_1_6@
    } else {
        linear_table()
    }
}

/// The identity table as a vector.
pub fn create_linear() -> (r: Vec<u8>)
    ensures
        r@ == linear_table(),
{
    let mut out: Vec<u8> = Vec::new();
    let mut i: usize = 0;
    while i < 256
        invariant
            i <= 256,
            out@.len() == i,
            forall|j: int| 0 <= j < i ==> out@[j] == j as u8,
        decreases 256 - i,
    {
        out.push(i as u8);
        i += 1;
    }
    proof {
        assert(out@ =~= linear_table());
    }
    out
}

/// Copy one precomputed table into a vector.
fn copy_table(t: &[u8; 256]) -> (r: Vec<u8>)
    ensures
        r@ == t@,
{
    let mut out: Vec<u8> = Vec::new();
    let mut i: usize = 0;
    while i < 256
        invariant
            i <= 256,
            out@ == t@.subrange(0, i as int),
        decreases 256 - i,
    {
        out.push(t[i]);
        proof {
            assert(out@ =~= t@.subrange(0, i + 1));
        }
        i += 1;
    }
    proof {
        assert(out@ =~= t@);
    }
    out
}

/// The gamma-1.0 table as a vector.
pub fn create_exponential_gamma_1_0() -> (r: Vec<u8>)
    ensures
        r@ == GAMMA_TABLE_1_0@,
{
    copy_table(&GAMMA_TABLE_1_0)
}

/// The gamma-1.3 table as a vector.
pub fn create_exponential_gamma_1_3() -> (r: Vec<u8>)
    ensures
        r@ == GAMMA_TABLE_1_3@,
{
    copy_table(&GAMMA_TABLE_1_3)
}

/// The gamma-1.6 table as a vector.
pub fn create_exponential_gamma_1_6() -> (r: Vec<u8>)
    ensures
        r@ == GAMMA_TABLE_1_6@,
{
    copy_table(&GAMMA_TABLE_1_6)
}

/// One 256-entry lookup table per color channel.
pub struct Gamma {
    gamma_r: Vec<u8>,
    gamma_g: Vec<u8>,
    gamma_b: Vec<u8>,
}

impl Gamma {
    /// Every channel table has one entry per 8-bit channel value.
    pub closed spec fn wf(&self) -> bool {
        &&& self.gamma_r@.len() == 256
        &&& self.gamma_g@.len() == 256
        &&& self.gamma_b@.len() == 256
    }

    /// The red channel's table.
    pub closed spec fn table_r(&self) -> Seq<u8> {
        self.gamma_r@
    }

    /// The green channel's table.
    pub closed spec fn table_g(&self) -> Seq<u8> {
        self.gamma_g@
    }

    /// The blue channel's table.
    pub closed spec fn table_b(&self) -> Seq<u8> {
        self.gamma_b@
    }

    /// What [`Gamma::apply`] does to one color: an independent per-channel
    /// table lookup.
    pub open spec fn apply_spec(&self, c: RGB) -> RGB {
        RGB {
            r: self.table_r()[c.r as int],
            g: self.table_g()[c.g as int],
            b: self.table_b()[c.b as int],
        }
    }

    /// Identity tables on all channels.
    pub fn linear() -> (r: Gamma)
        ensures
            r.wf(),
            r.table_r() == linear_table(),
            r.table_g() == linear_table(),
            r.table_b() == linear_table(),
    {
        Gamma { gamma_r: create_linear(), gamma_g: create_linear(), gamma_b: create_linear() }
    }

    /// The stock correction: gamma 1.0 on red, 1.3 on green, 1.6 on blue.
    pub fn correction() -> (r: Gamma)
        ensures
            r.wf(),
            r.table_r() == GAMMA_TABLE_1_0@,
            r.table_g() == GAMMA_TABLE_1_3@,
            r.table_b() == GAMMA_TABLE_1_6@,
    {
        Gamma {
            gamma_r: create_exponential_gamma_1_0(),
            gamma_g: create_exponential_gamma_1_3(),
            gamma_b: create_exponential_gamma_1_6(),
        }
    }

    /// The table set selected by the given per-channel exponent bit
    /// patterns. The result depends on the bit patterns alone, so equal
    /// exponents always give bit-identical tables.
    pub fn generate(gamma_r: u32, gamma_g: u32, gamma_b: u32) -> (r: Gamma)
        ensures
            r.wf(),
            r.table_r() == table_for_bits(gamma_r),
            r.table_g() == table_for_bits(gamma_g),
            r.table_b() == table_for_bits(gamma_b),
    {
        Gamma {
            gamma_r: select_table(gamma_r),
            gamma_g: select_table(gamma_g),
            gamma_b: select_table(gamma_b),
        }
    }

    /// The per-channel table lookup for one color.
    pub fn apply_one(&self, c: RGB) -> (r: RGB)
        requires
            self.wf(),
        ensures
            r == self.apply_spec(c),
    {
        RGB {
            r: self.gamma_r[c.r as usize],
            g: self.gamma_g[c.g as usize],
            b: self.gamma_b[c.b as usize],
        }
    }

    /// Replace every color by its per-channel table lookup.
    pub fn apply(&self, colors: &mut Vec<RGB>)
        requires
            self.wf(),
        ensures
            final(colors)@.len() == old(colors)@.len(),
            forall|i: int|
                0 <= i < old(colors)@.len() ==> final(colors)@[i] == self.apply_spec(
                    old(colors)@[i],
                ),
    {
        let mut i: usize = 0;
        while i < colors.len()
            invariant
                self.wf(),
                i <= colors@.len(),
                colors@.len() == old(colors)@.len(),
                forall|j: int| i <= j < colors@.len() ==> colors@[j] == old(colors)@[j],
                forall|j: int| 0 <= j < i ==> colors@[j] == self.apply_spec(old(colors)@[j]),
            decreases colors@.len() - i,
        {
            let c = colors[i];
            colors[i] = RGB {
                r: self.gamma_r[c.r as usize],
                g: self.gamma_g[c.g as usize],
                b: self.gamma_b[c.b as usize],
            };
            i += 1;
        }
    }
}

impl Default for Gamma {
    /// The identity tables.
    fn default() -> (r: Gamma)
        ensures
            r.wf(),
            r.table_r() == linear_table(),
            r.table_g() == linear_table(),
            r.table_b() == linear_table(),
    {
        Gamma::linear()
    }
}

/// The table for one exponent's bit pattern.
fn select_table(bits: u32) -> (r: Vec<u8>)
    ensures
        r@ == table_for_bits(bits),
{
    if bits == GAMMA_BITS_1_0 {
        create_exponential_gamma_1_0()
    } else if bits == GAMMA_BITS_1_3 {
        create_exponential_gamma_1_3()
    } else if bits == GAMMA_BITS_1_6 {
        create_exponential_gamma_1_6()
    } else {
        create_linear()
    }
}

/// Building tables twice from identical exponents yields bit-identical
/// tables: the table set is a function of the exponent bit patterns alone.
pub proof fn lemma_generate_deterministic(a: Gamma, b: Gamma, gr: u32, gg: u32, gb: u32)
    requires
        a.table_r() == table_for_bits(gr),
        a.table_g() == table_for_bits(gg),
        a.table_b() == table_for_bits(gb),
        b.table_r() == table_for_bits(gr),
        b.table_g() == table_for_bits(gg),
        b.table_b() == table_for_bits(gb),
    ensures
        a.table_r() == b.table_r(),
        a.table_g() == b.table_g(),
        a.table_b() == b.table_b(),
{
}

} // verus!
