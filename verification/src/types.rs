use vstd::prelude::*;
use vstd::string::StrSliceExecFns;
use vstd::string::StringExecFns;

use crate::table::TableData;
use crate::table::sum_ratios;
use crate::textfmt::fixed5_chars;
use crate::textfmt::format_fixed5;

verus! {

/// Lexicographic order on character sequences: decided by the first
/// differing character, a prefix before anything it opens.
pub open spec fn lex_le(a: Seq<char>, b: Seq<char>) -> bool
    decreases a.len(),
{
    if a.len() == 0 {
        true
    } else if b.len() == 0 {
        false
    } else if a[0] == b[0] {
        lex_le(a.skip(1), b.skip(1))
    } else {
        (a[0] as int) < (b[0] as int)
    }
}

/// The lexicographic order is total.
pub proof fn lemma_lex_le_total(a: Seq<char>, b: Seq<char>)
    ensures
        lex_le(a, b) || lex_le(b, a),
    decreases a.len(),
{
    if a.len() > 0 && b.len() > 0 && a[0] == b[0] {
        lemma_lex_le_total(a.skip(1), b.skip(1));
    }
}

/// Two sequences below each other are the same sequence.
pub proof fn lemma_lex_le_antisym(a: Seq<char>, b: Seq<char>)
    requires
        lex_le(a, b),
        lex_le(b, a),
    ensures
        a == b,
    decreases a.len(),
{
    if a.len() == 0 {
        assert(b.len() == 0);
        assert(a =~= b);
    } else if b.len() == 0 {
        assert(false);
    } else if a[0] == b[0] {
        lemma_lex_le_antisym(a.skip(1), b.skip(1));
        assert(a.skip(1).len() == b.skip(1).len());
        assert(a.len() == b.len());
        assert forall|i: int| 0 <= i < a.len() implies a[i] == b[i] by {
            if i > 0 {
                assert(a[i] == a.skip(1)[i - 1]);
                assert(b[i] == b.skip(1)[i - 1]);
            }
        }
        assert(a =~= b);
    } else {
        assert(false);
    }
}

/// The lexicographic order is transitive.
pub proof fn lemma_lex_le_trans(a: Seq<char>, b: Seq<char>, c: Seq<char>)
    requires
        lex_le(a, b),
        lex_le(b, c),
    ensures
        lex_le(a, c),
    decreases a.len(),
{
    if a.len() == 0 {
    } else if b.len() == 0 {
        assert(false);
    } else if c.len() == 0 {
        assert(false);
    } else {
        if a[0] == b[0] && b[0] == c[0] {
            lemma_lex_le_trans(a.skip(1), b.skip(1), c.skip(1));
        }
    }
}

/// Lexicographic comparison of two strings, character by character.
pub fn str_lex_le(a: &str, b: &str) -> (r: bool)
    ensures
        r == lex_le(a@, b@),
{
    let alen = a.unicode_len();
    let blen = b.unicode_len();
    let mut i: usize = 0;
    proof {
        assert(a@.skip(0) =~= a@);
        assert(b@.skip(0) =~= b@);
    }
    while i < alen && i < blen
        invariant
            i <= alen,
            i <= blen,
            alen == a@.len(),
            blen == b@.len(),
            lex_le(a@, b@) == lex_le(a@.skip(i as int), b@.skip(i as int)),
        decreases alen - i,
    {
        let ca = a.get_char(i);
        let cb = b.get_char(i);
        if ca != cb {
            return (ca as u32) < (cb as u32);
        }
        proof {
            assert(a@.skip(i as int).skip(1) =~= a@.skip(i + 1));
            assert(b@.skip(i as int).skip(1) =~= b@.skip(i + 1));
        }
        i = i + 1;
    }
    i >= alen
}

/// One priced asset, as the live table shows it. The price is held in
/// hundred-thousandths, so five decimal places are exact.
pub struct PriceIndex {
    pub asset: String,
    pub price: u64,
}

impl TableData for PriceIndex {
    /// Records order by asset name, then by price.
    open spec fn le_spec(&self, other: &Self) -> bool {
        if self.asset@ == other.asset@ {
            self.price <= other.price
        } else {
            lex_le(self.asset@, other.asset@)
        }
    }

    open spec fn cells_spec(&self) -> Seq<Seq<char>> {
        seq![self.asset@, fixed5_chars(self.price as int)]
    }

    open spec fn group_size_spec() -> int {
        4
    }

    open spec fn header_spec() -> Seq<Seq<char>> {
        seq!["Asset"@, "Price"@, "Asset"@, "Price"@, "Asset"@, "Price"@, "Asset"@, "Price"@]
    }

    open spec fn ratios_spec() -> Seq<u8> {
        seq![10u8, 15u8, 10u8, 15u8, 10u8, 15u8, 10u8, 15u8]
    }

    proof fn le_total(a: &Self, b: &Self) {
        lemma_lex_le_total(a.asset@, b.asset@);
    }

    proof fn le_trans(a: &Self, b: &Self, c: &Self) {
        if a.asset@ == b.asset@ || b.asset@ == c.asset@ {
        } else {
            lemma_lex_le_trans(a.asset@, b.asset@, c.asset@);
            if a.asset@ == c.asset@ {
                lemma_lex_le_antisym(a.asset@, b.asset@);
            }
        }
    }

    fn le(&self, other: &Self) -> (r: bool) {
        if self.asset.eq(&other.asset) {
            self.price <= other.price
        } else {
            str_lex_le(self.asset.as_str(), other.asset.as_str())
        }
    }

    /// Four records per visual row, each an asset and its price.
    fn header() -> (h: Vec<String>) {
        let mut h: Vec<String> = Vec::new();
        h.push(String::from_str("Asset"));
        h.push(String::from_str("Price"));
        h.push(String::from_str("Asset"));
        h.push(String::from_str("Price"));
        h.push(String::from_str("Asset"));
        h.push(String::from_str("Price"));
        h.push(String::from_str("Asset"));
        h.push(String::from_str("Price"));
        proof {
            assert(h@.map_values(|s: String| s@) =~= Self::header_spec());
        }
        h
    }

    fn column_constraints() -> (c: Vec<u8>) {
        let mut c: Vec<u8> = Vec::new();
        c.push(10);
        c.push(15);
        c.push(10);
        c.push(15);
        c.push(10);
        c.push(15);
        c.push(10);
        c.push(15);
        proof {
            reveal_with_fuel(sum_ratios, 10);
            let s8 = seq![10u8, 15u8, 10u8, 15u8, 10u8, 15u8, 10u8, 15u8];
            let s7 = seq![10u8, 15u8, 10u8, 15u8, 10u8, 15u8, 10u8];
            let s6 = seq![10u8, 15u8, 10u8, 15u8, 10u8, 15u8];
            let s5 = seq![10u8, 15u8, 10u8, 15u8, 10u8];
            let s4 = seq![10u8, 15u8, 10u8, 15u8];
            let s3 = seq![10u8, 15u8, 10u8];
            let s2 = seq![10u8, 15u8];
            let s1 = seq![10u8];
            assert(c@ =~= s8);
            assert(s8.drop_last() =~= s7);
            assert(s7.drop_last() =~= s6);
            assert(s6.drop_last() =~= s5);
            assert(s5.drop_last() =~= s4);
            assert(s4.drop_last() =~= s3);
            assert(s3.drop_last() =~= s2);
            assert(s2.drop_last() =~= s1);
            assert(s1.drop_last() =~= Seq::<u8>::empty());
            assert(sum_ratios(c@) == 100);
            assert(c@ =~= Self::ratios_spec());
        }
        c
    }

    fn group_size() -> (k: usize) {
        4
    }

    fn cells(&self) -> (c: Vec<String>) {
        let mut c: Vec<String> = Vec::new();
        c.push(self.asset.clone());
        c.push(format_fixed5(self.price));
        proof {
            assert(c@.map_values(|s: String| s@) =~= self.cells_spec());
        }
        c
    }
}

} // verus!
