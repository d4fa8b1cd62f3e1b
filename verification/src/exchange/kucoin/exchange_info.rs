//! The precision that the venue takes, symbol by symbol.
//!
//! The venue states the smallest step of a price and of a quantity as decimal text. The
//! number of characters behind the decimal point of a step is the number of decimals that
//! the venue takes for the symbol.

use crate::error::MintError;
use vstd::prelude::*;
use vstd::string::*;

verus! {

/// The number of decimals that the venue takes in a quantity and in a price of one symbol.
#[derive(Debug, Clone, Copy, PartialEq, Eq, Structural)]
pub struct KucoinPrecisionInfo {
    pub base_sig_digs: i8,
    pub price_sig_digs: i8,
}

/// What the venue states of one symbol, as far as the precision depends on it.
#[derive(Debug)]
pub struct SymbolIncrements {
    pub symbol: String,
    pub base_increment: String,
    pub price_increment: String,
}

/// Whether the first decimal point of `text` stands at `i`.
pub open spec fn point_at(text: Seq<char>, i: int) -> bool {
    &&& 0 <= i < text.len()
    &&& text[i] == '.'
    &&& forall|j: int| 0 <= j < i ==> text[j] != '.'
}

/// Whether `text` holds a decimal point.
pub open spec fn has_point(text: Seq<char>) -> bool {
    exists|i: int| point_at(text, i)
}

/// The index behind the first decimal point of `text`, or the length of `text` where it
/// holds none.
pub open spec fn decimals_start(text: Seq<char>) -> int {
    if has_point(text) {
        (choose|i: int| point_at(text, i)) + 1
    } else {
        text.len() as int
    }
}

/// The test that tells a digit of the decimals from a further decimal point.
pub open spec fn not_point() -> spec_fn(char) -> bool {
    |c: char| c != '.'
}

/// The number of characters of `text` that stand behind its first decimal point and are
/// no decimal point themselves.
pub open spec fn sig_digits(text: Seq<char>) -> nat {
    text.skip(decimals_start(text)).filter(not_point()).len()
}

/// The first decimal point of a text stands where a decimal point stands that has none
/// before it.
pub proof fn lemma_point_is_unique(text: Seq<char>, i: int)
    requires
        point_at(text, i),
    ensures
        has_point(text),
        decimals_start(text) == i + 1,
{
    let j = choose|j: int| point_at(text, j);
    assert(j == i) by {
        if j < i {
            assert(text[j] != '.');
        }
        if i < j {
            assert(text[i] != '.');
        }
    }
}

/// Counting one more character of the decimals adds one where it is no decimal point.
proof fn lemma_count_step(text: Seq<char>, from: int, to: int)
    requires
        0 <= from <= to < text.len(),
    ensures
        text.subrange(from, to + 1).filter(not_point()).len() == text.subrange(from, to).filter(
            not_point(),
        ).len() + if text[to] != '.' {
            1int
        } else {
            0int
        },
{
    reveal(Seq::filter);
    assert(text.subrange(from, to + 1).drop_last() =~= text.subrange(from, to));
}

/// The number of characters of `text` that stand behind its first decimal point and are
/// no decimal point themselves.
pub fn count_sig_digits(text: &str) -> (count: usize)
    ensures
        count == sig_digits(text@),
        count <= text@.len(),
{
    let len = text.unicode_len();
    let mut is_decimal_seen = false;
    let mut count: usize = 0;
    let ghost mut start: int = 0;
    for c in it: text.chars()
        invariant
            it.seq() == text@,
            len == text@.len(),
            count <= it.index(),
            is_decimal_seen ==> point_at(text@, start - 1) && start <= it.index() && count
                == text@.subrange(start, it.index() as int).filter(not_point()).len(),
            !is_decimal_seen ==> count == 0 && forall|j: int|
                0 <= j < it.index() ==> text@[j] != '.',
    {
        if c == '.' {
            if !is_decimal_seen {
                proof {
                    start = it.index() + 1;
                    assert(text@.subrange(start, start).filter(not_point()).len() == 0) by {
                        reveal(Seq::filter);
                    }
                }
                is_decimal_seen = true;
            } else {
                proof {
                    lemma_count_step(text@, start, it.index() as int);
                }
            }
        } else if is_decimal_seen {
            proof {
                lemma_count_step(text@, start, it.index() as int);
            }
            count += 1;
        }
    }
    proof {
        if is_decimal_seen {
            lemma_point_is_unique(text@, start - 1);
            assert(text@.subrange(start, text@.len() as int) =~= text@.skip(start));
        } else {
            assert(!has_point(text@));
            assert(text@.skip(text@.len() as int).filter(not_point()).len() == 0) by {
                reveal(Seq::filter);
            }
        }
    }
    count
}

/// The number of decimals of a step that the venue states as `float_str`.
pub fn num_sig_digits(float_str: String) -> (digits: i8)
    requires
        sig_digits(float_str@) <= i8::MAX,
    ensures
        digits == sig_digits(float_str@),
{
    count_sig_digits(float_str.as_str()) as i8
}

/// The precision of the symbol that `symbol_info` states it for.
pub open spec fn precision_of(symbol_info: SymbolIncrements) -> KucoinPrecisionInfo {
    KucoinPrecisionInfo {
        base_sig_digs: sig_digits(symbol_info.base_increment@) as i8,
        price_sig_digs: sig_digits(symbol_info.price_increment@) as i8,
    }
}

/// Whether both steps of `symbol_info` have few enough decimals to be counted.
pub open spec fn countable(symbol_info: SymbolIncrements) -> bool {
    sig_digits(symbol_info.base_increment@) <= i8::MAX && sig_digits(symbol_info.price_increment@)
        <= i8::MAX
}

/// The message of the error for a symbol whose steps have too many decimals.
pub open spec fn too_long_message(symbol: Seq<char>) -> Seq<char> {
    "Too many decimals in the increments of "@ + symbol
}

/// The precision that the venue takes for one symbol: the number of decimals of its two
/// steps. A step with more decimals than can be counted is an error.
pub fn get_one_symbol_info_kc(symbol_info: &SymbolIncrements) -> (info: Result<
    KucoinPrecisionInfo,
    MintError,
>)
    ensures
        info is Ok <==> countable(*symbol_info),
        info matches Ok(p) ==> p == precision_of(*symbol_info),
        info matches Err(e) ==> e matches MintError::Other(m) && m.text() == too_long_message(
            symbol_info.symbol@,
        ),
{
    let base = count_sig_digits(symbol_info.base_increment.as_str());
    let price = count_sig_digits(symbol_info.price_increment.as_str());
    if base > i8::MAX as usize || price > i8::MAX as usize {
        let mut msg = String::from_str("Too many decimals in the increments of ");
        msg.append(symbol_info.symbol.as_str());
        return Err(MintError::from_str(msg));
    }
    let base_sig_digs: i8 = num_sig_digits(symbol_info.base_increment.clone());
    let price_sig_digs: i8 = num_sig_digits(symbol_info.price_increment.clone());
    Ok(KucoinPrecisionInfo { price_sig_digs, base_sig_digs })
}

/// The precision of every symbol that the venue has stated it for, by the symbol's name.
pub struct ExchangeInfo {
    entries: Vec<(String, KucoinPrecisionInfo)>,
}

/// Whether the entry at `i` is the last one for `symbol`.
spec fn last_entry(
    entries: Seq<(String, KucoinPrecisionInfo)>,
    symbol: Seq<char>,
    i: int,
) -> bool {
    &&& 0 <= i < entries.len()
    &&& entries[i].0@ == symbol
    &&& forall|j: int| i < j < entries.len() ==> (#[trigger] entries[j]).0@ != symbol
}

/// The table that a list of entries stands for: of two entries for one symbol the later
/// one counts.
spec fn table_of(entries: Seq<(String, KucoinPrecisionInfo)>) -> Map<
    Seq<char>,
    KucoinPrecisionInfo,
> {
    Map::new(
        |symbol: Seq<char>| exists|i: int| last_entry(entries, symbol, i),
        |symbol: Seq<char>| entries[choose|i: int| last_entry(entries, symbol, i)].1,
    )
}

/// The entry that counts for a symbol is the last one for it.
proof fn lemma_last_entry_counts(
    entries: Seq<(String, KucoinPrecisionInfo)>,
    symbol: Seq<char>,
    i: int,
)
    requires
        last_entry(entries, symbol, i),
    ensures
        table_of(entries).contains_key(symbol),
        table_of(entries)[symbol] == entries[i].1,
{
    let j = choose|j: int| last_entry(entries, symbol, j);
    assert(j == i) by {
        if j < i {
            assert(entries[i].0@ != symbol);
        }
        if i < j {
            assert(entries[j].0@ != symbol);
        }
    }
}

impl View for ExchangeInfo {
    type V = Map<Seq<char>, KucoinPrecisionInfo>;

    closed spec fn view(&self) -> Map<Seq<char>, KucoinPrecisionInfo> {
        table_of(self.entries@)
    }
}

impl ExchangeInfo {
    /// A table without entries.
    pub fn new() -> (table: ExchangeInfo)
        ensures
            table@ == Map::<Seq<char>, KucoinPrecisionInfo>::empty(),
    {
        let table = ExchangeInfo { entries: Vec::new() };
        assert(table@ =~= Map::<Seq<char>, KucoinPrecisionInfo>::empty());
        table
    }

    /// The index of the entry that counts for `symbol`, if there is one.
    fn find(&self, symbol: &String) -> (found: Option<usize>)
        ensures
            match found {
                Some(i) => last_entry(self.entries@, symbol@, i as int),
                None => forall|j: int|
                    0 <= j < self.entries@.len() ==> (#[trigger] self.entries@[j]).0@ != symbol@,
            },
    {
        let mut i: usize = self.entries.len();
        while i > 0
            invariant
                i <= self.entries@.len(),
                forall|j: int|
                    i <= j < self.entries@.len() ==> (#[trigger] self.entries@[j]).0@ != symbol@,
            decreases i,
        {
            i -= 1;
            if self.entries[i].0 == *symbol {
                return Some(i);
            }
        }
        None
    }

    /// The precision that the table holds for `symbol`, if it holds one.
    pub fn get(&self, symbol: &String) -> (info: Option<KucoinPrecisionInfo>)
        ensures
            info == if self@.contains_key(symbol@) {
                Some(self@[symbol@])
            } else {
                None
            },
    {
        match self.find(symbol) {
            Some(i) => {
                proof {
                    lemma_last_entry_counts(self.entries@, symbol@, i as int);
                }
                Some(self.entries[i].1)
            },
            None => None,
        }
    }

    /// Enters the precision of `symbol`, in place of the one that the table held for it.
    pub fn insert(&mut self, symbol: String, info: KucoinPrecisionInfo)
        ensures
            final(self)@ == old(self)@.insert(symbol@, info),
    {
        let ghost before = self.entries@;
        match self.find(&symbol) {
            Some(i) => {
                self.entries[i].1 = info;
                proof {
                    let after = self.entries@;
                    assert forall|s: Seq<char>, j: int|
                        last_entry(before, s, j) <==> last_entry(after, s, j) by {
                        assert(after.len() == before.len());
                        assert(forall|m: int|
                            0 <= m < before.len() ==> (#[trigger] after[m]).0@ == before[m].0@);
                        assert(forall|m: int|
                            0 <= m < before.len() ==> (#[trigger] before[m]).0@ == after[m].0@);
                    }
                    assert forall|s: Seq<char>| #[trigger]
                        table_of(after).contains_key(s) implies table_of(after)[s] == (if s
                        == symbol@ {
                        info
                    } else {
                        table_of(before)[s]
                    }) by {
                        let j = choose|j: int| last_entry(after, s, j);
                        lemma_last_entry_counts(after, s, j);
                        lemma_last_entry_counts(before, s, j);
                        if s == symbol@ {
                            lemma_last_entry_counts(after, s, i as int);
                        }
                    }
                    lemma_last_entry_counts(after, symbol@, i as int);
                    assert(table_of(after) =~= table_of(before).insert(symbol@, info));
                }
            },
            None => {
                self.entries.push((symbol, info));
                proof {
                    let after = self.entries@;
                    let n = before.len() as int;
                    lemma_last_entry_counts(after, symbol@, n);
                    assert forall|s: Seq<char>, j: int| s != symbol@ implies (last_entry(
                        before,
                        s,
                        j,
                    ) <==> last_entry(after, s, j)) by {
                        assert(after.len() == n + 1);
                        assert(after[n].0@ == symbol@);
                        assert(forall|m: int| 0 <= m < n ==> (#[trigger] after[m]) == before[m]);
                        assert(forall|m: int| 0 <= m < n ==> (#[trigger] before[m]) == after[m]);
                    }
                    assert forall|s: Seq<char>| s != symbol@ && #[trigger] table_of(
                        after,
                    ).contains_key(s) implies table_of(after)[s] == table_of(before)[s] by {
                        let j = choose|j: int| last_entry(after, s, j);
                        lemma_last_entry_counts(after, s, j);
                        lemma_last_entry_counts(before, s, j);
                    }
                    assert(table_of(after) =~= table_of(before).insert(symbol@, info));
                }
            },
        }
    }
}

/// The table after the symbols of `symbols` have been entered in turn: a symbol whose
/// steps cannot be counted is passed over.
pub open spec fn info_table(symbols: Seq<SymbolIncrements>) -> Map<Seq<char>, KucoinPrecisionInfo>
    decreases symbols.len(),
{
    if symbols.len() == 0 {
        Map::empty()
    } else {
        let before = info_table(symbols.drop_last());
        if countable(symbols.last()) {
            before.insert(symbols.last().symbol@, precision_of(symbols.last()))
        } else {
            before
        }
    }
}

/// The table of the precision of every symbol that the venue has listed.
pub fn get_exchange_info_kc(symbols: &Vec<SymbolIncrements>) -> (table: ExchangeInfo)
    ensures
        table@ == info_table(symbols@),
{
    let mut table = ExchangeInfo::new();
    let mut i: usize = 0;
    while i < symbols.len()
        invariant
            i <= symbols@.len(),
            table@ == info_table(symbols@.take(i as int)),
        decreases symbols@.len() - i,
    {
        proof {
            assert(symbols@.take(i + 1).drop_last() =~= symbols@.take(i as int));
        }
        match get_one_symbol_info_kc(&symbols[i]) {
            Ok(info) => {
                table.insert(symbols[i].symbol.clone(), info);
            },
            Err(_) => {},
        }
        i += 1;
    }
    proof {
        assert(symbols@.take(symbols@.len() as int) =~= symbols@);
    }
    table
}

} // verus!
