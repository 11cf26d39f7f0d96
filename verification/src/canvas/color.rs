//! Colors as a pixmap stores them.

use vstd::prelude::*;
use vstd::string::StringExecFns;
use vstd::std_specs::cmp::PartialEqSpecImpl;
use crate::ppm::{PpmColor, decimal, push_decimal};

verus! {

/// A color with its three channels already scaled to the whole numbers from
/// 0 to 255.
#[derive(Clone, Copy, Debug, Eq)]
pub struct Rgb {
    pub r: u8,
    pub g: u8,
    pub b: u8,
}

impl Rgb {
    /// The color with the given red, green and blue.
    pub fn new(red: u8, green: u8, blue: u8) -> (c: Self)
        ensures
            c == (Rgb { r: red, g: green, b: blue }),
    {
        Rgb { r: red, g: green, b: blue }
    }

    /// The three channels as decimal numerals with a space between them.
    pub open spec fn ppm_color(&self) -> Seq<char> {
        decimal(self.r as nat) + seq![' '] + decimal(self.g as nat) + seq![' '] + decimal(self.b as nat)
    }
}

impl PartialEq for Rgb {
    fn eq(&self, other: &Self) -> (r: bool) {
        self.r == other.r && self.g == other.g && self.b == other.b
    }
}

impl PartialEqSpecImpl for Rgb {
    open spec fn obeys_eq_spec() -> bool {
        true
    }

    /// Colors are equal if they agree in every channel.
    open spec fn eq_spec(&self, other: &Self) -> bool {
        self.r == other.r && self.g == other.g && self.b == other.b
    }
}

impl PpmColor for Rgb {
    fn to_ppm_color(&self) -> (s: String)
        ensures
            s@ == self.ppm_color(),
    {
        let mut s = String::new();
        proof {
            reveal_strlit(" ");
        }
        push_decimal(&mut s, self.r as usize);
        s.append(" ");
        push_decimal(&mut s, self.g as usize);
        s.append(" ");
        push_decimal(&mut s, self.b as usize);
        assert(s@ =~= self.ppm_color());
        s
    }
}

} // verus!
