//! The symbols of a batch, as the venue names them.

use crate::exchange::kucoin::kucoin::DENOMINATION;
use vstd::prelude::*;
use vstd::string::*;

verus! {

/// One symbol of a batch: its name, the name of its trading pair, and the price at which
/// its positions are to be offered, as decimal text, once that is known.
#[derive(Debug)]
pub struct SymbolInfo {
    pub symbol: String,
    pub symbol_with_pair: String,
    pub price: Option<String>,
}

impl Clone for SymbolInfo {
    fn clone(&self) -> (copy: SymbolInfo)
        ensures
            copy == *self,
    {
        SymbolInfo {
            symbol: self.symbol.clone(),
            symbol_with_pair: self.symbol_with_pair.clone(),
            price: match &self.price {
                Some(p) => Some(p.clone()),
                None => None,
            },
        }
    }
}

/// The upper-case form of a text, as `str::to_uppercase` gives it.
pub uninterp spec fn uppercase(text: Seq<char>) -> Seq<char>;

/// `str::to_uppercase`: the result is the upper-case form of `text`, which depends on the
/// characters of `text` alone.
#[verifier::external_body]
fn to_uppercase(text: &str) -> (upper: String)
    ensures
        upper@ == uppercase(text@),
{
    text.to_uppercase()
}

/// The name of the pair that trades `symbol` against the denomination.
pub open spec fn pair_name(symbol: Seq<char>) -> Seq<char> {
    symbol + seq!['-'] + DENOMINATION@
}

/// Appends the denomination to a symbol that is already in upper case.
pub fn pair_with_denomination(symbol: String) -> (pair: String)
    ensures
        pair@ == pair_name(symbol@),
{
    let mut pair = symbol;
    pair.append("-");
    pair.append(DENOMINATION);
    proof {
        reveal_strlit("-");
        assert("-"@ =~= seq!['-']);
    }
    pair
}

/// The venue's name for the pair that trades `symbol` against the denomination.
pub fn prep_symbol_for_kucoin(symbol: String) -> (pair: String)
    ensures
        pair@ == pair_name(uppercase(symbol@)),
{
    pair_with_denomination(to_uppercase(symbol.as_str()))
}

/// The batch for a list of symbols as they were submitted: each in upper case, with the
/// name of its pair, and no price yet.
pub fn make_token_info_vec(symbols: Vec<String>) -> (batch: Vec<SymbolInfo>)
    ensures
        batch@.len() == symbols@.len(),
        forall|i: int|
            0 <= i < symbols@.len() ==> {
                &&& (#[trigger] batch@[i]).symbol@ == uppercase(symbols@[i]@)
                &&& batch@[i].symbol_with_pair@ == pair_name(uppercase(uppercase(symbols@[i]@)))
                &&& batch@[i].price is None
            },
{
    let mut batch: Vec<SymbolInfo> = Vec::new();
    let mut i: usize = 0;
    while i < symbols.len()
        invariant
            i <= symbols@.len(),
            batch@.len() == i,
            forall|j: int|
                0 <= j < i ==> {
                    &&& (#[trigger] batch@[j]).symbol@ == uppercase(symbols@[j]@)
                    &&& batch@[j].symbol_with_pair@ == pair_name(
                        uppercase(uppercase(symbols@[j]@)),
                    )
                    &&& batch@[j].price is None
                },
        decreases symbols@.len() - i,
    {
        let symbol = to_uppercase(symbols[i].as_str());
        let symbol_with_pair = prep_symbol_for_kucoin(symbol.clone());
        batch.push(SymbolInfo { symbol, symbol_with_pair, price: None });
        i += 1;
    }
    batch
}

} // verus!
