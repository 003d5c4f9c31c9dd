use vstd::prelude::*;

verus! {

/// An ordered (base, quote) ticker-symbol pair identifying a market.
/// Pairs are compared by the text of their symbols.
pub struct AssetPair {
    pub from: String,
    pub to: String,
}

impl AssetPair {
    /// The pair as a mathematical value: the two symbols' character sequences.
    pub open spec fn key(&self) -> (Seq<char>, Seq<char>) {
        (self.from@, self.to@)
    }

    pub fn new(from: String, to: String) -> (r: AssetPair)
        ensures
            r.from@ == from@,
            r.to@ == to@,
    {
        AssetPair { from, to }
    }

    /// The pair's symbols joined as they are logged and displayed.
    pub fn label(&self) -> (r: String)
        ensures
            r@ == self.from@ + "-"@ + self.to@,
    {
        let mut s = self.from.clone();
        s.append("-");
        s.append(self.to.as_str());
        proof {
            assert(s@ =~= self.from@ + "-"@ + self.to@);
        }
        s
    }

    /// Whether two pairs name the same market.
    pub fn same_pair(&self, other: &AssetPair) -> (r: bool)
        ensures
            r == (self.key() == other.key()),
    {
        let r = self.from.eq(&other.from) && self.to.eq(&other.to);
        proof {
            if self.from@ == other.from@ && self.to@ == other.to@ {
                assert(self.key() == other.key());
            } else {
                assert(self.key() != other.key());
            }
        }
        r
    }
}

impl Clone for AssetPair {
    fn clone(&self) -> (r: Self)
        ensures
            r.key() == self.key(),
    {
        AssetPair { from: self.from.clone(), to: self.to.clone() }
    }
}

} // verus!
