use vstd::prelude::*;
use crate::labels::{text_is, texts};

verus! {

/// The version of the saved-symbols file that this library writes and reads.
pub const SAVED_STOCKS_VERSION: u8 = 1;

/// Why a saved-symbols file was not taken.
#[derive(Clone, Copy, Debug, PartialEq, Eq, Structural)]
pub enum SavedStocksError {
    /// The file has a version other than `SAVED_STOCKS_VERSION`.
    UnknownVersion,
}

/// The symbols of a saved-symbols file, taken only at the known version.
pub fn saved_symbols_from(version: u8, symbols: Vec<String>) -> (r: Result<
    Vec<String>,
    SavedStocksError,
>)
    ensures
        version == SAVED_STOCKS_VERSION ==> r == Ok::<Vec<String>, SavedStocksError>(symbols),
        version != SAVED_STOCKS_VERSION ==> r == Err::<Vec<String>, SavedStocksError>(
            SavedStocksError::UnknownVersion,
        ),
{
    if version != SAVED_STOCKS_VERSION {
        Err(SavedStocksError::UnknownVersion)
    } else {
        Ok(symbols)
    }
}

/// Whether the setting that turns saving off is on: it is when its value is
/// exactly `1`.
pub fn persistence_disabled_by(setting: Option<&str>) -> (r: bool)
    ensures
        r == (setting matches Some(v) && v@ == "1"@),
{
    match setting {
        Some(v) => text_is(v, "1"),
        None => false,
    }
}

/// Whether a search text is worth sending to the quote provider: it must be
/// non-empty and ASCII.
pub fn should_search(query: &str) -> (r: bool)
    ensures
        r == (query@.len() > 0 && vstd::string::is_ascii(query)),
{
    !query.is_empty() && query.is_ascii()
}

/// What becomes of a sidebar row when the search text changes.
#[derive(Clone, Copy, Debug, PartialEq, Eq, Structural)]
pub struct RowFate {
    /// Whether the row is shown.
    pub visible: bool,
    /// Whether the row stays in the sidebar.
    pub keep: bool,
}

/// Rows that came from a search leave when the search text changes; a saved
/// row is shown only while the search text is empty.
pub fn row_after_search(query_empty: bool, searched: bool, saved: bool) -> (r: RowFate)
    ensures
        r.visible == (query_empty && !searched && saved),
        r.keep == !searched,
{
    RowFate { visible: query_empty && !searched && saved, keep: !searched }
}

/// The index of the first element of `v` at or after `i` that is `x`, or
/// `v.len()`.
pub open spec fn first_index_from(v: Seq<Seq<char>>, x: Seq<char>, i: int) -> int
    decreases v.len() - i,
{
    if i < 0 || i >= v.len() || v[i] == x {
        i
    } else {
        first_index_from(v, x, i + 1)
    }
}

proof fn lemma_first_index_bounds(v: Seq<Seq<char>>, x: Seq<char>, i: int)
    requires
        0 <= i <= v.len(),
    ensures
        i <= first_index_from(v, x, i) <= v.len(),
        first_index_from(v, x, i) < v.len() ==> v[first_index_from(v, x, i)] == x,
        forall|j: int| i <= j < first_index_from(v, x, i) ==> v[j] != x,
    decreases v.len() - i,
{
    if i < v.len() && v[i] != x {
        lemma_first_index_bounds(v, x, i + 1);
    }
}

/// Where `symbol` first stands in `list`, if it does.
pub fn find_symbol(list: &Vec<String>, symbol: &str) -> (r: Option<usize>)
    ensures
        r matches Some(i) ==> i == first_index_from(texts(list@), symbol@, 0) && i < list@.len(),
        r is None ==> first_index_from(texts(list@), symbol@, 0) == list@.len(),
        r is None <==> forall|j: int| 0 <= j < list@.len() ==> #[trigger] list@[j]@ != symbol@,
{
    let ghost v = texts(list@);
    proof {
        lemma_first_index_bounds(v, symbol@, 0);
    }
    let mut i: usize = 0;
    while i < list.len()
        invariant
            i <= list@.len(),
            v == texts(list@),
            first_index_from(v, symbol@, 0) == first_index_from(v, symbol@, i as int),
            forall|j: int| 0 <= j < i ==> #[trigger] list@[j]@ != symbol@,
        decreases list@.len() - i,
    {
        if text_is(list[i].as_str(), symbol) {
            proof {
                lemma_first_index_bounds(v, symbol@, 0);
            }
            return Some(i);
        }
        i += 1;
    }
    None
}

/// Takes the first `symbol` out of `list`; says whether there was one.
pub fn remove_symbol(list: &mut Vec<String>, symbol: &str) -> (found: bool)
    ensures
        found == (first_index_from(texts(old(list)@), symbol@, 0) < old(list)@.len()),
        found ==> texts(final(list)@) == texts(old(list)@).remove(
            first_index_from(texts(old(list)@), symbol@, 0),
        ),
        !found ==> final(list)@ == old(list)@,
{
    match find_symbol(list, symbol) {
        Some(i) => {
            let ghost before = list@;
            list.remove(i);
            assert(texts(list@) =~= texts(before).remove(i as int));
            true
        },
        None => false,
    }
}

/// Hands out a token for each refresh of the shown symbol, so that a result
/// that arrives after a newer refresh began can be told apart and dropped.
#[derive(Clone, Copy, Debug, PartialEq, Eq, Structural)]
pub struct RefreshGate {
    generation: u64,
}

impl RefreshGate {
    pub closed spec fn current(self) -> u64 {
        self.generation
    }

    pub fn new() -> (r: RefreshGate)
        ensures
            r.current() == 0,
    {
        RefreshGate { generation: 0 }
    }

    /// Starts a refresh: its token supersedes every token given before.
    pub fn begin(&mut self) -> (token: u64)
        ensures
            token == final(self).current(),
            token == (old(self).current() as int + 1) % 0x1_0000_0000_0000_0000,
    {
        self.generation = self.generation.wrapping_add(1);
        self.generation
    }

    /// Whether the refresh that got `token` is still the latest one.
    pub fn is_current(&self, token: u64) -> (r: bool)
        ensures
            r == (token == self.current()),
    {
        token == self.generation
    }
}

impl Default for RefreshGate {
    fn default() -> (r: RefreshGate)
        ensures
            r.current() == 0,
    {
        RefreshGate::new()
    }
}

/// Whether the shown symbol must be loaded again: when asked to, or when
/// another symbol is shown.
pub fn needs_update(force: bool, shown: &str, symbol: &str) -> (r: bool)
    ensures
        r == (force || shown@ != symbol@),
{
    force || !text_is(shown, symbol)
}

} // verus!
