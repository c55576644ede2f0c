//! The parameters that a query can carry, and how they are written into the
//! address of a request.

use vstd::prelude::*;
use vstd::string::{StringExecFns, StrSliceExecFns};
use crate::text::{
    add_piece, decimal, joined, joined_if_any, lemma_joined_push, number, optional_text, pad,
    padded, present, texts,
};
use crate::types::{Frequency, Order, Transform};

verus! {

/// White space, as Unicode defines it.
pub open spec fn is_space(c: char) -> bool {
    let code = c as u32;
    ||| 0x9 <= code <= 0xd
    ||| code == 0x20
    ||| code == 0x85
    ||| code == 0xa0
    ||| code == 0x1680
    ||| 0x2000 <= code <= 0x200a
    ||| code == 0x2028
    ||| code == 0x2029
    ||| code == 0x202f
    ||| code == 0x205f
    ||| code == 0x3000
}

/// The text from `from` up to `to` is white space.
pub open spec fn blank(text: Seq<char>, from: int, to: int) -> bool {
    forall|i: int| from <= i < to ==> is_space(#[trigger] text[i])
}

/// `kept` is `text` without the white space at its two ends.
pub open spec fn is_trimmed(text: Seq<char>, kept: Seq<char>) -> bool {
    exists|from: int, to: int|
        {
            &&& 0 <= from <= to <= text.len()
            &&& kept == #[trigger] text.subrange(from, to)
            &&& blank(text, 0, from)
            &&& blank(text, to, text.len() as int)
            &&& (from < to ==> !is_space(text[from]) && !is_space(text[to - 1]))
        }
}

/// A text without the white space at its two ends.
pub open spec fn trimmed(text: Seq<char>) -> Seq<char> {
    choose|kept: Seq<char>| is_trimmed(text, kept)
}

/// Only one text is a given text without the white space at its two ends.
pub proof fn lemma_trimmed_is_unique(text: Seq<char>, kept: Seq<char>)
    requires
        is_trimmed(text, kept),
    ensures
        trimmed(text) == kept,
{
    let other = trimmed(text);
    let (a, b) = choose|from: int, to: int|
        {
            &&& 0 <= from <= to <= text.len()
            &&& kept == #[trigger] text.subrange(from, to)
            &&& blank(text, 0, from)
            &&& blank(text, to, text.len() as int)
            &&& (from < to ==> !is_space(text[from]) && !is_space(text[to - 1]))
        };
    let (c, d) = choose|from: int, to: int|
        {
            &&& 0 <= from <= to <= text.len()
            &&& other == #[trigger] text.subrange(from, to)
            &&& blank(text, 0, from)
            &&& blank(text, to, text.len() as int)
            &&& (from < to ==> !is_space(text[from]) && !is_space(text[to - 1]))
        };
    if a < b {
        assert(!is_space(text[a]));
        assert(!is_space(text[b - 1]));
        assert(c <= a);
        assert(d >= b);
        assert(c < d);
        assert(a <= c);
        assert(b >= d);
    } else {
        if c < d {
            assert(!is_space(text[c]));
            assert(c >= b);
            assert(c < a);
        }
        assert(kept =~= other);
    }
}

fn space(c: char) -> (yes: bool)
    ensures
        yes == is_space(c),
{
    let code = c as u32;
    (0x9 <= code && code <= 0xd) || code == 0x20 || code == 0x85 || code == 0xa0 || code == 0x1680
        || (0x2000 <= code && code <= 0x200a) || code == 0x2028 || code == 0x2029 || code == 0x202f
        || code == 0x205f || code == 0x3000
}

/// Takes the white space off the two ends of a text.
pub fn trim(text: &str) -> (kept: String)
    ensures
        kept@ == trimmed(text@),
{
    let length = text.unicode_len();
    let mut from: usize = 0;
    while from < length && space(text.get_char(from))
        invariant
            from <= length,
            length == text@.len(),
            blank(text@, 0, from as int),
        decreases length - from,
    {
        from = from + 1;
    }
    let mut to: usize = length;
    while to > from && space(text.get_char(to - 1))
        invariant
            from <= to <= length,
            length == text@.len(),
            blank(text@, to as int, length as int),
        decreases to,
    {
        to = to - 1;
    }
    let kept = String::from_str(text.substring_char(from, to));
    proof {
        assert(kept@ == text@.subrange(from as int, to as int));
        assert(is_trimmed(text@, kept@));
        lemma_trimmed_is_unique(text@, kept@);
    }
    kept
}

/// The credential of a query.
#[derive(Debug, Clone, PartialEq)]
pub struct ApiArguments {
    api_key: Option<String>,
}

impl View for ApiArguments {
    type V = Option<Seq<char>>;

    closed spec fn view(&self) -> Option<Seq<char>> {
        optional_text(self.api_key)
    }
}

/// How a credential is written into an address.
pub open spec fn api_text(key: Option<Seq<char>>) -> Option<Seq<char>> {
    match key {
        Some(key) => Some("api_key="@ + key),
        None => None,
    }
}

impl Default for ApiArguments {
    fn default() -> (fresh: Self)
        ensures
            fresh@ is None,
    {
        ApiArguments { api_key: None }
    }
}

impl ApiArguments {
    /// The credential, if one was set.
    pub fn key(&self) -> (key: Option<String>)
        ensures
            optional_text(key) == self@,
    {
        match &self.api_key {
            Some(key) => Some(key.clone()),
            None => None,
        }
    }

    /// Sets the credential.
    pub fn set_key(&mut self, key: &str)
        ensures
            final(self)@ == Some(key@),
    {
        self.api_key = Some(String::from_str(key));
    }

    /// The credential as it stands in an address, if one was set.
    pub fn fmt(&self) -> (text: Option<String>)
        ensures
            optional_text(text) == api_text(self@),
    {
        match &self.api_key {
            Some(key) => {
                let mut text = String::from_str("api_key=");
                text.append(key.as_str());
                Some(text)
            },
            None => None,
        }
    }
}

/// What a search asks for.
pub struct SearchTerms {
    /// The keywords, without white space at their ends.
    pub keywords: Seq<Seq<char>>,
    /// The number of results on a page.
    pub per_page: Option<usize>,
    /// The page that is wanted.
    pub page: Option<usize>,
}

/// The parameters of a search.
#[derive(Debug, Clone, PartialEq)]
pub struct SearchArguments {
    keywords: Vec<String>,
    per_page: Option<usize>,
    page: Option<usize>,
}

impl View for SearchArguments {
    type V = SearchTerms;

    closed spec fn view(&self) -> SearchTerms {
        SearchTerms { keywords: texts(self.keywords@), per_page: self.per_page, page: self.page }
    }
}

/// A name and a number, as they stand in an address.
pub open spec fn counted(name: Seq<char>, value: Option<usize>) -> Option<Seq<char>> {
    match value {
        Some(n) => Some(name + decimal(n as nat)),
        None => None,
    }
}

/// The keywords of a search, as they stand in an address.
pub open spec fn keywords_piece(keywords: Seq<Seq<char>>) -> Option<Seq<char>> {
    if keywords.len() > 0 {
        Some("query="@ + joined(keywords, "+"@))
    } else {
        None
    }
}

/// The pieces that a search adds to an address, in their order.
pub open spec fn search_pieces(terms: SearchTerms) -> Seq<Seq<char>> {
    present(keywords_piece(terms.keywords)) + present(counted("per_page="@, terms.per_page))
        + present(counted("page="@, terms.page))
}

/// What a search adds to an address: its pieces joined by `&`, or nothing
/// where nothing was set.
pub open spec fn search_text(terms: SearchTerms) -> Option<Seq<char>> {
    joined_if_any(search_pieces(terms), "&"@)
}

impl Default for SearchArguments {
    fn default() -> (fresh: Self)
        ensures
            fresh@ == (SearchTerms { keywords: Seq::empty(), per_page: None, page: None }),
    {
        let fresh = SearchArguments { keywords: Vec::new(), per_page: None, page: None };
        assert(texts(fresh.keywords@) =~= Seq::<Seq<char>>::empty());
        fresh
    }
}

/// Adds a name and a number to the pieces of an address.
fn add_counted(text: &mut String, count: &mut usize, name: &str, value: Option<usize>, Ghost(pieces): Ghost<Seq<Seq<char>>>)
    requires
        *old(count) == pieces.len(),
        pieces.len() < 16,
        old(text)@ == joined(pieces, "&"@),
    ensures
        *final(count) == (pieces + present(counted(name@, value))).len(),
        final(text)@ == joined(pieces + present(counted(name@, value)), "&"@),
{
    match value {
        Some(n) => {
            let mut piece = String::from_str(name);
            piece.append(number(n).as_str());
            add_piece(text, *count, "&", piece.as_str());
            *count = *count + 1;
            proof {
                lemma_joined_push(pieces, "&"@, piece@);
                assert(pieces + seq![piece@] =~= pieces.push(piece@));
            }
        },
        None => {
            assert(pieces + Seq::<Seq<char>>::empty() =~= pieces);
        },
    }
}

/// Adds a name and a word to the pieces of an address.
fn add_named(text: &mut String, count: &mut usize, name: &str, word: Option<&str>, Ghost(pieces): Ghost<Seq<Seq<char>>>)
    requires
        *old(count) == pieces.len(),
        pieces.len() < 16,
        old(text)@ == joined(pieces, "&"@),
    ensures
        *final(count) == (pieces + present(named(name@, optional_word(word)))).len(),
        final(text)@ == joined(pieces + present(named(name@, optional_word(word))), "&"@),
{
    match word {
        Some(word) => {
            let mut piece = String::from_str(name);
            piece.append(word);
            add_piece(text, *count, "&", piece.as_str());
            *count = *count + 1;
            proof {
                lemma_joined_push(pieces, "&"@, piece@);
                assert(pieces + seq![piece@] =~= pieces.push(piece@));
            }
        },
        None => {
            assert(pieces + Seq::<Seq<char>>::empty() =~= pieces);
        },
    }
}

/// The contents of an optional word.
pub open spec fn optional_word(word: Option<&str>) -> Option<Seq<char>> {
    match word {
        Some(word) => Some(word@),
        None => None,
    }
}

/// A name and a word, as they stand in an address.
pub open spec fn named(name: Seq<char>, word: Option<Seq<char>>) -> Option<Seq<char>> {
    match word {
        Some(word) => Some(name + word),
        None => None,
    }
}

/// The text, if it holds a piece.
fn finished(text: String, count: usize, Ghost(pieces): Ghost<Seq<Seq<char>>>) -> (done: Option<String>)
    requires
        count == pieces.len(),
        text@ == joined(pieces, "&"@),
    ensures
        optional_text(done) == joined_if_any(pieces, "&"@),
{
    if count > 0 {
        Some(text)
    } else {
        None
    }
}

impl SearchArguments {
    /// Sets the keywords of the search. White space at the ends of a keyword
    /// is left out.
    pub fn set_keywords(&mut self, keywords: &[&str])
        ensures
            final(self)@ == (SearchTerms {
                keywords: Seq::new(keywords@.len(), |i: int| trimmed(keywords@[i]@)),
                ..old(self)@
            }),
    {
        let mut kept: Vec<String> = Vec::new();
        let mut i: usize = 0;
        while i < keywords.len()
            invariant
                i <= keywords.len(),
                kept@.len() == i,
                texts(kept@) == Seq::new(i as nat, |k: int| trimmed(keywords@[k]@)),
            decreases keywords.len() - i,
        {
            let ghost before = kept@;
            kept.push(trim(keywords[i]));
            assert(texts(kept@) =~= Seq::new((i + 1) as nat, |k: int| trimmed(keywords@[k]@))) by {
                assert forall|k: int| 0 <= k < i implies texts(kept@)[k] == trimmed(
                    keywords@[k]@,
                ) by {
                    assert(texts(before)[k] == trimmed(keywords@[k]@));
                }
            }
            i = i + 1;
        }
        self.keywords = kept;
    }

    /// Sets the number of results on a page.
    pub fn set_per_page(&mut self, n: usize)
        ensures
            final(self)@ == (SearchTerms { per_page: Some(n), ..old(self)@ }),
    {
        self.per_page = Some(n);
    }

    /// Sets the page that is wanted.
    pub fn set_page(&mut self, n: usize)
        ensures
            final(self)@ == (SearchTerms { page: Some(n), ..old(self)@ }),
    {
        self.page = Some(n);
    }

    /// The search as it stands in an address, if anything was set.
    pub fn fmt(&self) -> (text: Option<String>)
        ensures
            optional_text(text) == search_text(self@),
    {
        let mut text = String::new();
        let mut count: usize = 0;
        let ghost mut pieces: Seq<Seq<char>> = Seq::empty();
        if self.keywords.len() > 0 {
            let mut piece = String::from_str("query=");
            let ghost words = texts(self.keywords@);
            let mut i: usize = 0;
            let ghost start = piece@;
            while i < self.keywords.len()
                invariant
                    i <= self.keywords.len(),
                    words == texts(self.keywords@),
                    piece@ == start + joined(words.take(i as int), "+"@),
                decreases self.keywords.len() - i,
            {
                proof {
                    lemma_joined_push(words.take(i as int), "+"@, words[i as int]);
                    assert(words.take(i as int).push(words[i as int]) =~= words.take(i + 1));
                }
                add_piece(&mut piece, i, "+", self.keywords[i].as_str());
                i = i + 1;
            }
            proof {
                assert(words.take(self.keywords.len() as int) =~= words);
                lemma_joined_push(pieces, "&"@, piece@);
                assert(pieces.push(piece@) =~= present(keywords_piece(self@.keywords)));
            }
            add_piece(&mut text, count, "&", piece.as_str());
            count = 1;
            proof {
                pieces = present(keywords_piece(self@.keywords));
            }
        }
        assert(pieces =~= present(keywords_piece(self@.keywords)));
        add_counted(&mut text, &mut count, "per_page=", self.per_page, Ghost(pieces));
        proof {
            pieces = pieces + present(counted("per_page="@, self.per_page));
        }
        add_counted(&mut text, &mut count, "page=", self.page, Ghost(pieces));
        proof {
            pieces = pieces + present(counted("page="@, self.page));
        }
        finished(text, count, Ghost(pieces))
    }
}

/// What a query for data asks for.
pub struct DataTerms {
    /// The number of rows that are wanted.
    pub rows: Option<usize>,
    /// The number of rows that are wanted, by its other name.
    pub limit: Option<usize>,
    /// The order of the rows.
    pub order: Option<Order>,
    /// The frequency to which the data are collapsed.
    pub collapse: Option<Frequency>,
    /// The calculation to perform on the data.
    pub transform: Option<Transform>,
    /// The last day that is wanted, as year, month and day.
    pub end_date: Option<(u16, u8, u8)>,
    /// The first day that is wanted, as year, month and day.
    pub start_date: Option<(u16, u8, u8)>,
    /// The column that is wanted besides the dates.
    pub column_index: Option<usize>,
}

/// The parameters of a query for data.
#[derive(Debug, Clone, PartialEq)]
pub struct DataArguments {
    rows: Option<usize>,
    limit: Option<usize>,
    order: Option<Order>,
    collapse: Option<Frequency>,
    transform: Option<Transform>,
    end_date: Option<(u16, u8, u8)>,
    start_date: Option<(u16, u8, u8)>,
    column_index: Option<usize>,
}

impl View for DataArguments {
    type V = DataTerms;

    closed spec fn view(&self) -> DataTerms {
        DataTerms {
            rows: self.rows,
            limit: self.limit,
            order: self.order,
            collapse: self.collapse,
            transform: self.transform,
            end_date: self.end_date,
            start_date: self.start_date,
            column_index: self.column_index,
        }
    }
}

/// A day as it stands in an address: the year in four digits at least, the
/// month and the day in two.
pub open spec fn date_text(date: (u16, u8, u8)) -> Seq<char> {
    padded(date.0 as nat, 4) + "-"@ + padded(date.1 as nat, 2) + "-"@ + padded(date.2 as nat, 2)
}

/// The word of an order, if there is one.
pub open spec fn order_word(order: Option<Order>) -> Option<Seq<char>> {
    match order {
        Some(order) => Some(order.label()),
        None => None,
    }
}

/// The word of a frequency, if there is one.
pub open spec fn frequency_word(frequency: Option<Frequency>) -> Option<Seq<char>> {
    match frequency {
        Some(frequency) => Some(frequency.label()),
        None => None,
    }
}

/// The word of a calculation, if there is one.
pub open spec fn transform_word(transform: Option<Transform>) -> Option<Seq<char>> {
    match transform {
        Some(transform) => Some(transform.label()),
        None => None,
    }
}

/// A day as it stands in an address, if there is one.
pub open spec fn date_word(date: Option<(u16, u8, u8)>) -> Option<Seq<char>> {
    match date {
        Some(date) => Some(date_text(date)),
        None => None,
    }
}

/// The pieces that a query for data adds to an address, in their order.
pub open spec fn data_pieces(terms: DataTerms) -> Seq<Seq<char>> {
    present(counted("rows="@, terms.rows)) + present(counted("limit="@, terms.limit)) + present(
        named("order="@, order_word(terms.order)),
    ) + present(named("collapse="@, frequency_word(terms.collapse))) + present(
        named("transform="@, transform_word(terms.transform)),
    ) + present(named("end_date="@, date_word(terms.end_date))) + present(
        named("start_date="@, date_word(terms.start_date)),
    ) + present(counted("column_index="@, terms.column_index))
}

/// What a query for data adds to an address: its pieces joined by `&`, or
/// nothing where nothing was set.
pub open spec fn data_text(terms: DataTerms) -> Option<Seq<char>> {
    joined_if_any(data_pieces(terms), "&"@)
}

impl Default for DataArguments {
    fn default() -> (fresh: Self)
        ensures
            fresh@ == (DataTerms {
                rows: None,
                limit: None,
                order: None,
                collapse: None,
                transform: None,
                end_date: None,
                start_date: None,
                column_index: None,
            }),
    {
        DataArguments {
            rows: None,
            limit: None,
            order: None,
            collapse: None,
            transform: None,
            end_date: None,
            start_date: None,
            column_index: None,
        }
    }
}

/// Writes a day as it stands in an address.
pub fn write_date(date: (u16, u8, u8)) -> (text: String)
    ensures
        text@ == date_text(date),
{
    let mut text = pad(date.0 as usize, 4);
    text.append("-");
    text.append(pad(date.1 as usize, 2).as_str());
    text.append("-");
    text.append(pad(date.2 as usize, 2).as_str());
    text
}

impl DataArguments {
    /// Sets the number of rows that are wanted.
    pub fn set_rows(&mut self, n: usize)
        ensures
            final(self)@ == (DataTerms { rows: Some(n), ..old(self)@ }),
    {
        self.rows = Some(n);
    }

    /// Sets the number of rows that are wanted, by its other name.
    pub fn set_limit(&mut self, n: usize)
        ensures
            final(self)@ == (DataTerms { limit: Some(n), ..old(self)@ }),
    {
        self.limit = Some(n);
    }

    /// Sets the order of the rows.
    pub fn set_order(&mut self, order: Order)
        ensures
            final(self)@ == (DataTerms { order: Some(order), ..old(self)@ }),
    {
        self.order = Some(order);
    }

    /// Sets the frequency to which the data are collapsed.
    pub fn set_collapse(&mut self, collapse: Frequency)
        ensures
            final(self)@ == (DataTerms { collapse: Some(collapse), ..old(self)@ }),
    {
        self.collapse = Some(collapse);
    }

    /// Sets the calculation to perform on the data.
    pub fn set_transform(&mut self, transform: Transform)
        ensures
            final(self)@ == (DataTerms { transform: Some(transform), ..old(self)@ }),
    {
        self.transform = Some(transform);
    }

    /// Sets the last day that is wanted.
    pub fn set_end_date(&mut self, year: u16, month: u8, day: u8)
        ensures
            final(self)@ == (DataTerms { end_date: Some((year, month, day)), ..old(self)@ }),
    {
        self.end_date = Some((year, month, day));
    }

    /// Sets the first day that is wanted.
    pub fn set_start_date(&mut self, year: u16, month: u8, day: u8)
        ensures
            final(self)@ == (DataTerms { start_date: Some((year, month, day)), ..old(self)@ }),
    {
        self.start_date = Some((year, month, day));
    }

    /// Sets the column that is wanted besides the dates.
    pub fn set_column_index(&mut self, index: usize)
        ensures
            final(self)@ == (DataTerms { column_index: Some(index), ..old(self)@ }),
    {
        self.column_index = Some(index);
    }

    /// The parameters as they stand in an address, if any was set.
    pub fn fmt(&self) -> (text: Option<String>)
        ensures
            optional_text(text) == data_text(self@),
    {
        let mut text = String::new();
        let mut count: usize = 0;
        let ghost mut pieces: Seq<Seq<char>> = Seq::empty();
        add_counted(&mut text, &mut count, "rows=", self.rows, Ghost(pieces));
        proof {
            pieces = pieces + present(counted("rows="@, self.rows));
            assert(pieces =~= present(counted("rows="@, self.rows)));
        }
        add_counted(&mut text, &mut count, "limit=", self.limit, Ghost(pieces));
        proof {
            pieces = pieces + present(counted("limit="@, self.limit));
        }
        let order = match self.order {
            Some(order) => Some(order.name()),
            None => None,
        };
        add_named(&mut text, &mut count, "order=", order, Ghost(pieces));
        proof {
            pieces = pieces + present(named("order="@, order_word(self.order)));
        }
        let collapse = match self.collapse {
            Some(collapse) => Some(collapse.name()),
            None => None,
        };
        add_named(&mut text, &mut count, "collapse=", collapse, Ghost(pieces));
        proof {
            pieces = pieces + present(named("collapse="@, frequency_word(self.collapse)));
        }
        let transform = match self.transform {
            Some(transform) => Some(transform.name()),
            None => None,
        };
        add_named(&mut text, &mut count, "transform=", transform, Ghost(pieces));
        proof {
            pieces = pieces + present(named("transform="@, transform_word(self.transform)));
        }
        let end = match self.end_date {
            Some(date) => Some(write_date(date)),
            None => None,
        };
        let end_word = match &end {
            Some(word) => Some(word.as_str()),
            None => None,
        };
        add_named(&mut text, &mut count, "end_date=", end_word, Ghost(pieces));
        proof {
            pieces = pieces + present(named("end_date="@, date_word(self.end_date)));
        }
        let start = match self.start_date {
            Some(date) => Some(write_date(date)),
            None => None,
        };
        let start_word = match &start {
            Some(word) => Some(word.as_str()),
            None => None,
        };
        add_named(&mut text, &mut count, "start_date=", start_word, Ghost(pieces));
        proof {
            pieces = pieces + present(named("start_date="@, date_word(self.start_date)));
        }
        add_counted(&mut text, &mut count, "column_index=", self.column_index, Ghost(pieces));
        proof {
            pieces = pieces + present(counted("column_index="@, self.column_index));
        }
        finished(text, count, Ghost(pieces))
    }
}

/// The parameters that every query has.
pub trait ApiParameters: Sized {
    /// The credential that the query holds.
    spec fn api_key_held(&self) -> Option<Seq<char>>;

    /// Sets the credential with which the query is made.
    fn api_key(&mut self, api_key: &str) -> (chained: &mut Self)
        ensures
            chained.api_key_held() == Some(api_key@),
            *final(self) == *final(chained),
    ;

    /// What the credential adds to the address of the request, if one was
    /// set.
    fn fmt(&self) -> (text: Option<String>)
        ensures
            optional_text(text) == api_text(self.api_key_held()),
    ;
}

/// The parameters of the queries that search.
pub trait SearchParameters: Sized {
    /// What the search asks for.
    spec fn search_terms(&self) -> SearchTerms;

    /// Sets the keywords that the results must be related to. White space at
    /// the ends of a keyword is left out.
    fn query(&mut self, keywords: &[&str]) -> (chained: &mut Self)
        ensures
            chained.search_terms() == (SearchTerms {
                keywords: Seq::new(keywords@.len(), |i: int| trimmed(keywords@[i]@)),
                ..old(self).search_terms()
            }),
            *final(self) == *final(chained),
    ;

    /// Sets the number of results on a page.
    fn per_page(&mut self, n: usize) -> (chained: &mut Self)
        ensures
            chained.search_terms() == (SearchTerms { per_page: Some(n), ..old(self).search_terms() }),
            *final(self) == *final(chained),
    ;

    /// Sets the page that is wanted.
    fn page(&mut self, n: usize) -> (chained: &mut Self)
        ensures
            chained.search_terms() == (SearchTerms { page: Some(n), ..old(self).search_terms() }),
            *final(self) == *final(chained),
    ;

    /// What the search adds to the address of the request, if anything was
    /// set.
    fn fmt(&self) -> (text: Option<String>)
        ensures
            optional_text(text) == search_text(self.search_terms()),
    ;
}

/// The parameters of the queries that fetch data.
pub trait DataParameters: Sized {
    /// What the query asks for.
    spec fn data_terms(&self) -> DataTerms;

    /// Sets the number of rows that are wanted.
    fn rows(&mut self, n: usize) -> (chained: &mut Self)
        ensures
            chained.data_terms() == (DataTerms { rows: Some(n), ..old(self).data_terms() }),
            *final(self) == *final(chained),
    ;

    /// Sets the number of rows that are wanted, by its other name.
    fn limit(&mut self, n: usize) -> (chained: &mut Self)
        ensures
            chained.data_terms() == (DataTerms { limit: Some(n), ..old(self).data_terms() }),
            *final(self) == *final(chained),
    ;

    /// Sets the order of the rows by date.
    fn order(&mut self, order: Order) -> (chained: &mut Self)
        ensures
            chained.data_terms() == (DataTerms { order: Some(order), ..old(self).data_terms() }),
            *final(self) == *final(chained),
    ;

    /// Sets the frequency to which the data are collapsed.
    fn collapse(&mut self, collapse: Frequency) -> (chained: &mut Self)
        ensures
            chained.data_terms() == (DataTerms {
                collapse: Some(collapse),
                ..old(self).data_terms()
            }),
            *final(self) == *final(chained),
    ;

    /// Sets the calculation that the service performs on the data.
    fn transform(&mut self, transform: Transform) -> (chained: &mut Self)
        ensures
            chained.data_terms() == (DataTerms {
                transform: Some(transform),
                ..old(self).data_terms()
            }),
            *final(self) == *final(chained),
    ;

    /// Sets the last day that is wanted.
    fn end_date(&mut self, year: u16, month: u8, day: u8) -> (chained: &mut Self)
        ensures
            chained.data_terms() == (DataTerms {
                end_date: Some((year, month, day)),
                ..old(self).data_terms()
            }),
            *final(self) == *final(chained),
    ;

    /// Sets the first day that is wanted.
    fn start_date(&mut self, year: u16, month: u8, day: u8) -> (chained: &mut Self)
        ensures
            chained.data_terms() == (DataTerms {
                start_date: Some((year, month, day)),
                ..old(self).data_terms()
            }),
            *final(self) == *final(chained),
    ;

    /// Sets the column that is wanted besides the dates.
    fn column_index(&mut self, index: usize) -> (chained: &mut Self)
        ensures
            chained.data_terms() == (DataTerms {
                column_index: Some(index),
                ..old(self).data_terms()
            }),
            *final(self) == *final(chained),
    ;

    /// What the parameters add to the address of the request, if any was
    /// set.
    fn fmt(&self) -> (text: Option<String>)
        ensures
            optional_text(text) == data_text(self.data_terms()),
    ;
}

} // verus!
