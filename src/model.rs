//! The records served by the API.
//!
//! Monetary amounts and coordinates arrive as IEEE-754 doubles. The library
//! never computes with them, so it keeps each one as the bit pattern of the
//! double (`f64::to_bits`), which carries the value through unchanged.

use vstd::prelude::*;

verus! {

/// A geographic position, each component the bit pattern of an `f64`.
#[derive(Clone, Copy, Debug, PartialEq, Eq, Structural)]
pub struct Coordinates {
    /// Latitude, as `f64::to_bits` of the degrees.
    pub latitude: u64,
    /// Longitude, as `f64::to_bits` of the degrees.
    pub longitude: u64,
}

/// A canteen with its details.
#[derive(Debug)]
pub struct Canteen {
    /// The unique identifier, assigned by the API.
    pub id: u32,
    /// The raw name, often of the form "location, display name".
    pub name: String,
    /// The city where the canteen is located.
    pub city: String,
    /// The street address.
    pub address: String,
    /// The geographic position, where the API knows it.
    pub coordinates: Option<Coordinates>,
}

impl Clone for Canteen {
    fn clone(&self) -> (r: Self)
        ensures
            r == *self,
    {
        Canteen {
            id: self.id,
            name: self.name.clone(),
            city: self.city.clone(),
            address: self.address.clone(),
            coordinates: self.coordinates,
        }
    }
}

} // verus!

verus! {

/// What a canteen is, with its strings as character sequences.
pub struct CanteenView {
    pub id: u32,
    pub name: Seq<char>,
    pub city: Seq<char>,
    pub address: Seq<char>,
    pub coordinates: Option<Coordinates>,
}

impl View for Canteen {
    type V = CanteenView;

    open spec fn view(&self) -> CanteenView {
        CanteenView {
            id: self.id,
            name: self.name@,
            city: self.city@,
            address: self.address@,
            coordinates: self.coordinates,
        }
    }
}

/// The views of a sequence of canteens, one for one.
pub open spec fn views(cs: Seq<Canteen>) -> Seq<CanteenView> {
    cs.map_values(|c: Canteen| c@)
}

/// The characters that are dropped around a display name.
pub open spec fn is_blank(c: char) -> bool {
    c == ' ' || c == '\t' || c == '\n' || c == '\r'
}

/// The index of the first comma in `s` at or after `from`, or `s.len()`
/// where there is none.
pub open spec fn next_comma(s: Seq<char>, from: int) -> int
    decreases s.len() - from,
{
    if from >= s.len() {
        s.len() as int
    } else if s[from] == ',' {
        from
    } else {
        next_comma(s, from + 1)
    }
}

/// The first index in `from..to` whose character is not blank, or `to`.
pub open spec fn skip_blanks(s: Seq<char>, from: int, to: int) -> int
    decreases to - from,
{
    if from >= to {
        to
    } else if !is_blank(s[from]) {
        from
    } else {
        skip_blanks(s, from + 1, to)
    }
}

/// The end of `from..to` once blanks at its end are dropped.
pub open spec fn drop_blanks_back(s: Seq<char>, from: int, to: int) -> int
    decreases to - from,
{
    if to <= from {
        from
    } else if !is_blank(s[to - 1]) {
        to
    } else {
        drop_blanks_back(s, from, to - 1)
    }
}

/// The display name held in a raw name of the form "location, display name":
/// the second comma-separated segment, without surrounding blanks, or the
/// empty sequence where the raw name holds no comma.
pub open spec fn display_name_of(raw: Seq<char>) -> Seq<char> {
    let c = next_comma(raw, 0);
    if c >= raw.len() {
        Seq::empty()
    } else {
        let end = next_comma(raw, c + 1);
        let lo = skip_blanks(raw, c + 1, end);
        let hi = drop_blanks_back(raw, lo, end);
        raw.subrange(lo, hi)
    }
}

/// A canteen with its name replaced by the display name, the rest unchanged.
pub open spec fn with_display_name_of(c: CanteenView) -> CanteenView {
    CanteenView { name: display_name_of(c.name), ..c }
}

/// Where `from..to` holds no comma, `next_comma` skips all of it.
proof fn lemma_next_comma_skips(s: Seq<char>, from: int, to: int)
    requires
        0 <= from <= to <= s.len(),
        forall|k: int| from <= k < to ==> s[k] != ',',
    ensures
        next_comma(s, from) == next_comma(s, to),
    decreases to - from,
{
    if from < to {
        lemma_next_comma_skips(s, from + 1, to);
    }
}

/// A raw name without a comma has the empty display name.
pub proof fn lemma_no_comma_empty_display_name(raw: Seq<char>)
    requires
        !raw.contains(','),
    ensures
        display_name_of(raw) == Seq::<char>::empty(),
{
    assert forall|k: int| 0 <= k < raw.len() implies raw[k] != ',' by {
        if raw[k] == ',' {
            assert(raw.contains(','));
        }
    }
    lemma_next_comma_skips(raw, 0, raw.len() as int);
}

/// The index of the first comma of `s` at or after `from`, or its length.
fn find_comma(s: &str, len: usize, from: usize) -> (r: usize)
    requires
        len == s@.len(),
        from <= len,
    ensures
        r == next_comma(s@, from as int),
        from <= r <= len,
{
    let mut i: usize = from;
    while i < len
        invariant
            from <= i <= len,
            len == s@.len(),
            next_comma(s@, i as int) == next_comma(s@, from as int),
        decreases len - i,
    {
        if s.get_char(i) == ',' {
            return i;
        }
        i = i + 1;
    }
    i
}

/// Derives the display name from a raw canteen name: the text between the
/// first and the second comma (or the end), without surrounding blanks.
/// A raw name without a comma gives the empty string.
pub fn display_name(raw: &str) -> (r: String)
    ensures
        r@ == display_name_of(raw@),
{
    let len = raw.unicode_len();
    let c = find_comma(raw, len, 0);
    if c >= len {
        return String::new();
    }
    let end = find_comma(raw, len, c + 1);
    let mut lo: usize = c + 1;
    while lo < end && is_blank_char(raw.get_char(lo))
        invariant
            c + 1 <= lo <= end <= len,
            len == raw@.len(),
            skip_blanks(raw@, lo as int, end as int) == skip_blanks(raw@, c + 1, end as int),
        decreases end - lo,
    {
        lo = lo + 1;
    }
    let mut hi: usize = end;
    while hi > lo && is_blank_char(raw.get_char(hi - 1))
        invariant
            lo <= hi <= end <= len,
            len == raw@.len(),
            drop_blanks_back(raw@, lo as int, hi as int) == drop_blanks_back(
                raw@,
                lo as int,
                end as int,
            ),
        decreases hi,
    {
        hi = hi - 1;
    }
    raw.substring_char(lo, hi).to_owned()
}

fn is_blank_char(c: char) -> (r: bool)
    ensures
        r == is_blank(c),
{
    c == ' ' || c == '\t' || c == '\n' || c == '\r'
}

impl Canteen {
    /// A copy of this canteen whose name is the display name derived from
    /// the raw name; the other fields are copied unchanged.
    pub fn with_display_name(&self) -> (r: Canteen)
        ensures
            r@ == with_display_name_of(self@),
    {
        Canteen {
            id: self.id,
            name: display_name(self.name.as_str()),
            city: self.city.clone(),
            address: self.address.clone(),
            coordinates: self.coordinates,
        }
    }
}

} // verus!

verus! {

/// The price of a meal for each group of customers, each the bit pattern of
/// an `f64` amount. An absent price means the meal is not offered to that
/// group, which is not the same as a price of zero.
#[derive(Clone, Copy, Debug, PartialEq, Eq, Structural)]
pub struct Prices {
    /// Price for students.
    pub students: Option<u64>,
    /// Price for employees.
    pub employees: Option<u64>,
    /// Price for pupils.
    pub pupils: Option<u64>,
    /// Price for others.
    pub others: Option<u64>,
}

/// A meal offered by a canteen on one day.
#[derive(Debug)]
pub struct Meal {
    /// The identifier of the meal within its canteen and day.
    pub id: u64,
    /// The name of the meal.
    pub name: String,
    /// The category of the meal (e.g. "Vegetarian").
    pub category: String,
    /// The prices for each group of customers.
    pub prices: Prices,
    /// Additional notes, such as allergens.
    pub notes: Vec<String>,
}

} // verus!
