use vstd::prelude::*;

verus! {

/// Sign of a decomposed angle.  By convention a zero magnitude carries
/// `Positive`.
#[derive(Debug, Clone, Copy, PartialEq, Eq, Structural)]
pub enum Sign {
    Negative,
    Positive,
}

impl Sign {
    /// Sign of an integer: negative values give `Negative`, zero and
    /// positive values give `Positive`.
    pub open spec fn of_int(v: int) -> Sign {
        if v < 0 {
            Sign::Negative
        } else {
            Sign::Positive
        }
    }

    /// The factor -1 or +1 that this sign stands for.
    pub open spec fn factor(self) -> int {
        if self is Negative {
            -1
        } else {
            1
        }
    }

    /// Product of two signs.
    pub open spec fn times_spec(self, rhs: Sign) -> Sign {
        if self == rhs {
            Sign::Positive
        } else {
            Sign::Negative
        }
    }

    pub fn from_i64(v: i64) -> (r: Sign)
        ensures
            r == Sign::of_int(v as int),
    {
        if v < 0 {
            Sign::Negative
        } else {
            Sign::Positive
        }
    }

    pub fn times(self, rhs: Sign) -> (r: Sign)
        ensures
            r == self.times_spec(rhs),
    {
        match (self, rhs) {
            (Sign::Positive, Sign::Positive) => Sign::Positive,
            (Sign::Negative, Sign::Negative) => Sign::Positive,
            _ => Sign::Negative,
        }
    }

    pub fn is_negative(&self) -> (r: bool)
        ensures
            r == (*self is Negative),
    {
        match self {
            Sign::Negative => true,
            Sign::Positive => false,
        }
    }

    /// Pick one of two strings by this sign.
    pub fn to_string_specific<'a>(&self, if_negative: &'a str, if_positive: &'a str) -> (r:
        &'a str)
        ensures
            *self is Negative ==> r == if_negative,
            *self is Positive ==> r == if_positive,
    {
        match self {
            Sign::Negative => if_negative,
            Sign::Positive => if_positive,
        }
    }

}

/// Render a sign as the North/South hemisphere marker of a latitude.
pub trait ToStringNS {
    /// The north/south marker this value renders to.
    spec fn ns_spec(&self) -> Seq<char>;

    /// The localized north/south marker this value renders to.
    spec fn ns_ja_jp_spec(&self) -> Seq<char>;

    fn to_string_ns(&self) -> (r: &'static str)
        ensures
            r@ == self.ns_spec(),
    ;

    fn to_string_ns_ja_jp(&self) -> (r: &'static str)
        ensures
            r@ == self.ns_ja_jp_spec(),
    ;
}

/// Render a sign as the East/West hemisphere marker of a longitude.
pub trait ToStringEW {
    /// The east/west marker this value renders to.
    spec fn ew_spec(&self) -> Seq<char>;

    /// The localized east/west marker this value renders to.
    spec fn ew_ja_jp_spec(&self) -> Seq<char>;

    fn to_string_ew(&self) -> (r: &'static str)
        ensures
            r@ == self.ew_spec(),
    ;

    fn to_string_ew_ja_jp(&self) -> (r: &'static str)
        ensures
            r@ == self.ew_ja_jp_spec(),
    ;
}

impl ToStringNS for Sign {
    open spec fn ns_spec(&self) -> Seq<char> {
        if *self is Negative {
            seq!['S']
        } else {
            seq!['N']
        }
    }

    open spec fn ns_ja_jp_spec(&self) -> Seq<char> {
        if *self is Negative {
            seq!['南', '緯']
        } else {
            seq!['北', '緯']
        }
    }

    fn to_string_ns(&self) -> (r: &'static str) {
        let r = self.to_string_specific("S", "N");
        proof {
            reveal_strlit("S");
            reveal_strlit("N");
            assert(r@ =~= self.ns_spec());
        }
        r
    }

    fn to_string_ns_ja_jp(&self) -> (r: &'static str) {
        let r = self.to_string_specific("南緯", "北緯");
        proof {
            reveal_strlit("南緯");
            reveal_strlit("北緯");
            assert(r@ =~= self.ns_ja_jp_spec());
        }
        r
    }
}

impl ToStringEW for Sign {
    open spec fn ew_spec(&self) -> Seq<char> {
        if *self is Negative {
            seq!['W']
        } else {
            seq!['E']
        }
    }

    open spec fn ew_ja_jp_spec(&self) -> Seq<char> {
        if *self is Negative {
            seq!['西', '経']
        } else {
            seq!['東', '経']
        }
    }

    fn to_string_ew(&self) -> (r: &'static str) {
        let r = self.to_string_specific("W", "E");
        proof {
            reveal_strlit("W");
            reveal_strlit("E");
            assert(r@ =~= self.ew_spec());
        }
        r
    }

    fn to_string_ew_ja_jp(&self) -> (r: &'static str) {
        let r = self.to_string_specific("西経", "東経");
        proof {
            reveal_strlit("西経");
            reveal_strlit("東経");
            assert(r@ =~= self.ew_ja_jp_spec());
        }
        r
    }
}

} // verus!
