//! Symbol lists: parsing the configured list, normalising user input, and
//! comparing the lists that the strategy engine publishes.

use vstd::prelude::*;

use crate::text::{str_equal, to_uppercase, trim, trimmed, uppercased};

verus! {

/// The characters of each string.
pub open spec fn texts(v: Seq<String>) -> Seq<Seq<char>> {
    v.map_values(|s: String| s@)
}

/// The pieces of `s` between commas, as `str::split(',')` yields them: one more
/// piece than there are commas, empty pieces included.
pub open spec fn comma_pieces(s: Seq<char>) -> Seq<Seq<char>>
    decreases s.len(),
{
    if s.len() == 0 {
        seq![Seq::<char>::empty()]
    } else {
        let prev = comma_pieces(s.drop_last());
        if s.last() == ',' {
            prev.push(Seq::<char>::empty())
        } else {
            prev.update(prev.len() - 1, prev.last().push(s.last()))
        }
    }
}

/// A symbol as typed by a user: white space trimmed, upper case.
pub open spec fn normalized(s: Seq<char>) -> Seq<char> {
    uppercased(trimmed(s))
}

/// The names that are not empty, in order.
pub open spec fn nonempty_names(names: Seq<Seq<char>>) -> Seq<Seq<char>>
    decreases names.len(),
{
    if names.len() == 0 {
        Seq::<Seq<char>>::empty()
    } else {
        let rest = nonempty_names(names.drop_last());
        if names.last().len() > 0 {
            rest.push(names.last())
        } else {
            rest
        }
    }
}

/// Each piece normalised.
pub open spec fn all_normalized(pieces: Seq<Seq<char>>) -> Seq<Seq<char>> {
    pieces.map_values(|p: Seq<char>| normalized(p))
}

/// The normalised pieces that are not empty, in order.
pub open spec fn kept_symbols(pieces: Seq<Seq<char>>) -> Seq<Seq<char>> {
    nonempty_names(all_normalized(pieces))
}

/// No name that survives the filter is empty.
pub proof fn lemma_nonempty_names(names: Seq<Seq<char>>)
    ensures
        forall|k: int| 0 <= k < nonempty_names(names).len() ==> (#[trigger] nonempty_names(names)[k]).len() > 0,
    decreases names.len(),
{
    if names.len() > 0 {
        lemma_nonempty_names(names.drop_last());
        let rest = nonempty_names(names.drop_last());
        let cur = nonempty_names(names);
        assert forall|k: int| 0 <= k < cur.len() implies (#[trigger] cur[k]).len() > 0 by {
            if k < rest.len() {
                assert(cur[k] == rest[k]);
            }
        }
    }
}

/// No parsed symbol is empty.
pub proof fn lemma_kept_symbols_nonempty(pieces: Seq<Seq<char>>)
    ensures
        forall|k: int| 0 <= k < kept_symbols(pieces).len() ==> (#[trigger] kept_symbols(pieces)[k]).len() > 0,
{
    lemma_nonempty_names(all_normalized(pieces));
}

/// The symbols of a comma-separated list.
pub open spec fn symbol_list(raw: Seq<char>) -> Seq<Seq<char>> {
    kept_symbols(comma_pieces(raw))
}

/// Normalises a symbol typed by a user: trims white space and upper-cases it.
pub fn normalize_symbol(raw: &str) -> (r: String)
    ensures
        r@ == normalized(raw@),
{
    to_uppercase(trim(raw))
}

/// Upper-cases a symbol.
pub fn uppercase_symbol(raw: &str) -> (r: String)
    ensures
        r@ == uppercased(raw@),
{
    to_uppercase(raw)
}

proof fn lemma_comma_pieces_nonempty(s: Seq<char>)
    ensures
        comma_pieces(s).len() >= 1,
    decreases s.len(),
{
    if s.len() > 0 {
        lemma_comma_pieces_nonempty(s.drop_last());
    }
}

/// Drops the empty names of a list, keeping the order of the others.
pub fn drop_empty_names(names: Vec<String>) -> (r: Vec<String>)
    ensures
        texts(r@) == nonempty_names(texts(names@)),
{
    let mut result: Vec<String> = Vec::new();
    let mut names = names;
    let ghost all = names@;
    let mut i: usize = 0;
    let n = names.len();
    while i < n
        invariant
            n == all.len(),
            names@ == all,
            i <= n,
            texts(result@) == nonempty_names(texts(all).take(i as int)),
        decreases n - i,
    {
        let ghost before = result@;
        proof {
            assert(texts(all).take(i + 1).drop_last() =~= texts(all).take(i as int));
            assert(texts(all).take(i + 1).last() == all[i as int]@);
        }
        if !names[i].as_str().is_empty() {
            let name = names[i].clone();
            result.push(name);
            proof {
                assert(result@ =~= before.push(name));
                assert(texts(result@) =~= texts(before).push(name@));
            }
        }
        i = i + 1;
    }
    proof {
        assert(texts(all).take(n as int) =~= texts(all));
    }
    result
}

/// The pieces of a comma-separated list, each normalised, empty ones included.
fn normalized_pieces(raw: &str) -> (r: Vec<String>)
    ensures
        texts(r@) == all_normalized(comma_pieces(raw@)),
{
    let n = raw.unicode_len();
    let mut result: Vec<String> = Vec::new();
    let mut start: usize = 0;
    let mut i: usize = 0;
    let ghost mut done: Seq<Seq<char>> = Seq::empty();
    proof {
        assert(raw@.take(0) =~= Seq::<char>::empty());
        assert(raw@.subrange(0, 0) =~= Seq::<char>::empty());
        assert(all_normalized(done) =~= Seq::<Seq<char>>::empty());
    }
    while i < n
        invariant
            n == raw@.len(),
            start <= i <= n,
            comma_pieces(raw@.take(i as int)) == done.push(raw@.subrange(start as int, i as int)),
            texts(result@) == all_normalized(done),
        decreases n - i,
    {
        let c = raw.get_char(i);
        proof {
            let t = raw@.take(i + 1);
            assert(t.drop_last() =~= raw@.take(i as int));
            assert(t.last() == c);
            lemma_comma_pieces_nonempty(raw@.take(i as int));
        }
        if c == ',' {
            let piece = raw.substring_char(start, i);
            let name = normalize_symbol(piece);
            let ghost before = result@;
            result.push(name);
            proof {
                assert(result@ =~= before.push(name));
                assert(texts(result@) =~= texts(before).push(name@));
                assert(all_normalized(done.push(piece@)) =~= all_normalized(done).push(normalized(piece@)));
                done = done.push(piece@);
                assert(raw@.subrange((i + 1) as int, (i + 1) as int) =~= Seq::<char>::empty());
            }
            start = i + 1;
        } else {
            proof {
                assert(raw@.subrange(start as int, (i + 1) as int) =~= raw@.subrange(
                    start as int,
                    i as int,
                ).push(c));
            }
        }
        i = i + 1;
    }
    let piece = raw.substring_char(start, n);
    let name = normalize_symbol(piece);
    let ghost before = result@;
    result.push(name);
    proof {
        assert(raw@.take(n as int) =~= raw@);
        assert(result@ =~= before.push(name));
        assert(texts(result@) =~= texts(before).push(name@));
        assert(all_normalized(done.push(piece@)) =~= all_normalized(done).push(normalized(piece@)));
    }
    result
}

/// Parses a comma-separated symbol list: each piece is trimmed and upper-cased,
/// and empty pieces are dropped.
pub fn parse_symbol_list(raw: &str) -> (r: Vec<String>)
    ensures
        texts(r@) == symbol_list(raw@),
{
    drop_empty_names(normalized_pieces(raw))
}


/// The symbol list used when the strategy engine publishes none and no list is
/// configured.
pub open spec fn default_symbol_setting() -> Seq<char> {
    "SPY,QQQ,AAPL,MSFT,NVDA,GOOGL"@
}

/// Each string upper-cased.
pub open spec fn all_uppercased(v: Seq<Seq<char>>) -> Seq<Seq<char>> {
    v.map_values(|s: Seq<char>| uppercased(s))
}

/// Upper-cases every symbol of a list, keeping the order.
pub fn uppercase_all(names: &Vec<String>) -> (r: Vec<String>)
    ensures
        texts(r@) == all_uppercased(texts(names@)),
{
    let mut result: Vec<String> = Vec::new();
    let mut i: usize = 0;
    while i < names.len()
        invariant
            i <= names.len(),
            texts(result@) == all_uppercased(texts(names@).take(i as int)),
        decreases names.len() - i,
    {
        let ghost before = result@;
        let u = uppercase_symbol(names[i].as_str());
        result.push(u);
        proof {
            assert(result@ =~= before.push(u));
            assert(texts(names@).take(i + 1) =~= texts(names@).take(i as int).push(names@[i as int]@));
            let prefix = texts(names@).take(i as int);
            assert(all_uppercased(texts(names@).take(i + 1)) =~= all_uppercased(prefix).push(
                uppercased(names@[i as int]@),
            ));
            assert(texts(result@) =~= texts(before).push(u@));
        }
        i = i + 1;
    }
    proof {
        assert(texts(names@).take(names@.len() as int) =~= texts(names@));
    }
    result
}

/// The symbols to trade: the list published by the strategy engine, upper-cased,
/// when it holds any; otherwise the configured comma-separated list, or the
/// default list when none is configured.
pub open spec fn chosen_symbols(fetched: Option<Seq<Seq<char>>>, setting: Option<Seq<char>>) -> Seq<Seq<char>> {
    if fetched is Some && all_uppercased(fetched->0).len() > 0 {
        all_uppercased(fetched->0)
    } else {
        match setting {
            Some(s) => symbol_list(s),
            None => symbol_list(default_symbol_setting()),
        }
    }
}

/// The configured list is the fallback: when the strategy engine gives no list
/// or an empty one, the symbols are exactly those of the setting (its comma
/// pieces, trimmed, upper-cased, empty ones dropped), and the default list only
/// when there is no setting; a non-empty published list is used, upper-cased.
pub proof fn lemma_setting_is_the_fallback(fetched: Option<Seq<Seq<char>>>, setting: Option<Seq<char>>)
    ensures
        (fetched is None || fetched->0.len() == 0) && setting is Some ==> chosen_symbols(fetched, setting)
            == kept_symbols(comma_pieces(setting->0)),
        (fetched is None || fetched->0.len() == 0) && setting is None ==> chosen_symbols(fetched, setting)
            == kept_symbols(comma_pieces(default_symbol_setting())),
        fetched is Some && fetched->0.len() > 0 ==> chosen_symbols(fetched, setting) == fetched->0.map_values(
            |s: Seq<char>| uppercased(s),
        ),
{
}

/// Chooses the symbol list at start-up from what the strategy engine published
/// (if it answered) and the `SYMBOLS` setting.
pub fn choose_symbols(fetched: Option<Vec<String>>, setting: Option<&str>) -> (r: Vec<String>)
    ensures
        texts(r@) == chosen_symbols(
            match fetched {
                Some(v) => Some(texts(v@)),
                None => None,
            },
            match setting {
                Some(s) => Some(s@),
                None => None,
            },
        ),
        match fetched {
            Some(v) => v@.len() == 0,
            None => true,
        } ==> texts(r@) == match setting {
            Some(s) => symbol_list(s@),
            None => symbol_list(default_symbol_setting()),
        },
        match fetched {
            Some(v) => v@.len() > 0 ==> texts(r@) == all_uppercased(texts(v@)),
            None => true,
        },
{
    proof {
        reveal_strlit("SPY,QQQ,AAPL,MSFT,NVDA,GOOGL");
    }
    if let Some(names) = &fetched {
        let upper = uppercase_all(names);
        if upper.len() > 0 {
            return upper;
        }
    }
    match setting {
        Some(s) => parse_symbol_list(s),
        None => parse_symbol_list("SPY,QQQ,AAPL,MSFT,NVDA,GOOGL"),
    }
}

/// Whether a list holds a symbol.
pub fn contains_symbol(list: &Vec<String>, symbol: &str) -> (r: bool)
    ensures
        r == texts(list@).contains(symbol@),
{
    let mut i: usize = 0;
    while i < list.len()
        invariant
            i <= list.len(),
            forall|j: int| 0 <= j < i ==> texts(list@)[j] != symbol@,
        decreases list.len() - i,
    {
        if str_equal(list[i].as_str(), symbol) {
            proof {
                assert(texts(list@)[i as int] == symbol@);
            }
            return true;
        }
        i = i + 1;
    }
    proof {
        if texts(list@).contains(symbol@) {
            let j = choose|j: int| 0 <= j < texts(list@).len() && texts(list@)[j] == symbol@;
            assert(texts(list@)[j] != symbol@);
        }
    }
    false
}

/// The elements of `xs` that `ys` does not hold, in order.
pub open spec fn missing_from(xs: Seq<Seq<char>>, ys: Seq<Seq<char>>) -> Seq<Seq<char>>
    decreases xs.len(),
{
    if xs.len() == 0 {
        Seq::<Seq<char>>::empty()
    } else {
        let rest = missing_from(xs.drop_last(), ys);
        if ys.contains(xs.last()) {
            rest
        } else {
            rest.push(xs.last())
        }
    }
}

/// The symbols of `xs` that `ys` does not hold, in the order of `xs`.
pub fn symbols_missing_from(xs: &Vec<String>, ys: &Vec<String>) -> (r: Vec<String>)
    ensures
        texts(r@) == missing_from(texts(xs@), texts(ys@)),
{
    let mut result: Vec<String> = Vec::new();
    let mut i: usize = 0;
    while i < xs.len()
        invariant
            i <= xs.len(),
            texts(result@) == missing_from(texts(xs@).take(i as int), texts(ys@)),
        decreases xs.len() - i,
    {
        proof {
            assert(texts(xs@).take(i + 1).drop_last() =~= texts(xs@).take(i as int));
        }
        if !contains_symbol(ys, xs[i].as_str()) {
            let ghost before = result@;
            result.push(xs[i].clone());
            proof {
                assert(result@ =~= before.push(xs@[i as int]));
                assert(texts(result@) =~= texts(before).push(xs@[i as int]@));
            }
        }
        i = i + 1;
    }
    proof {
        assert(texts(xs@).take(xs@.len() as int) =~= texts(xs@));
    }
    result
}

/// Whether two symbol lists are equal, element by element.
pub fn same_symbols(a: &Vec<String>, b: &Vec<String>) -> (r: bool)
    ensures
        r == (texts(a@) == texts(b@)),
{
    if a.len() != b.len() {
        proof {
            assert(texts(a@).len() != texts(b@).len());
        }
        return false;
    }
    let mut i: usize = 0;
    while i < a.len()
        invariant
            i <= a.len(),
            a.len() == b.len(),
            forall|j: int| 0 <= j < i ==> texts(a@)[j] == texts(b@)[j],
        decreases a.len() - i,
    {
        if a[i] != b[i] {
            proof {
                assert(texts(a@)[i as int] != texts(b@)[i as int]);
            }
            return false;
        }
        i = i + 1;
    }
    proof {
        assert(texts(a@) =~= texts(b@));
    }
    true
}

/// A change of the traded symbol list.
pub struct SymbolChange {
    /// Symbols of the new list that the current one lacks, in the new list's order.
    pub added: Vec<String>,
    /// Symbols of the current list that the new one lacks, in the current order.
    pub removed: Vec<String>,
}

/// Compares the current symbol list with a newly published one. Nothing changes
/// when the new list is empty or equal to the current one; otherwise the new list
/// replaces the current one and the added and removed symbols are reported.
pub fn update_symbol_list(current: &mut Vec<String>, published: Vec<String>) -> (r: Option<SymbolChange>)
    ensures
        (published@.len() == 0 || texts(old(current)@) == texts(published@)) ==> {
            &&& r is None
            &&& final(current)@ == old(current)@
        },
        !(published@.len() == 0 || texts(old(current)@) == texts(published@)) ==> {
            &&& r is Some
            &&& texts(r->0.added@) == missing_from(texts(published@), texts(old(current)@))
            &&& texts(r->0.removed@) == missing_from(texts(old(current)@), texts(published@))
            &&& final(current)@ == published@
        },
{
    if published.len() == 0 || same_symbols(current, &published) {
        return None;
    }
    let added = symbols_missing_from(&published, current);
    let removed = symbols_missing_from(current, &published);
    *current = published;
    Some(SymbolChange { added, removed })
}

/// The symbols whose latest prices the quote refresh fetches: the position
/// symbols, with SPY appended when it is not among them (for the regime filter).
pub fn quote_symbols(position_symbols: &Vec<String>) -> (r: Vec<String>)
    ensures
        texts(position_symbols@).contains("SPY"@) ==> texts(r@) == texts(position_symbols@),
        !texts(position_symbols@).contains("SPY"@) ==> texts(r@) == texts(position_symbols@).push(
            "SPY"@,
        ),
{
    let mut result = position_symbols.clone();
    proof {
        assert(result@ =~= position_symbols@) by {
            assert forall|j: int| 0 <= j < result@.len() implies result@[j] == position_symbols@[j] by {
            }
        }
    }
    if !contains_symbol(position_symbols, "SPY") {
        let ghost before = result@;
        let spy = String::from_str("SPY");
        result.push(spy);
        proof {
            assert(result@ =~= before.push(spy));
            assert(texts(result@) =~= texts(before).push("SPY"@));
        }
    }
    result
}

} // verus!
